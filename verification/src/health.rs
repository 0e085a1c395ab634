//! The server's health report and the view the client derives from it. A
//! fetch either yields a fully populated [`HealthState`] or the explicit
//! unreachable sentinel ([`TabbyClientViewData`] holding nothing) — never a
//! half-filled value.

use vstd::prelude::*;
use vstd::string::*;
use crate::device::{device_name_spec, Device};
use crate::error::TabbyApiError;
use crate::text::{chars_to_string, push_str_chars};

verus! {

/// Build metadata the server reports.
#[derive(Clone, Debug, PartialEq, Eq)]
pub struct Version {
    pub build_date: String,
    pub build_timestamp: String,
    pub git_sha: String,
    pub git_describe: String,
}

impl Version {
    /// Builds the version record from its four stamps.
    pub fn new(build_date: String, build_timestamp: String, git_sha: String, git_describe: String)
        -> (v: Self)
        ensures
            v.build_date == build_date,
            v.build_timestamp == build_timestamp,
            v.git_sha == git_sha,
            v.git_describe == git_describe,
    {
        Version { build_date, build_timestamp, git_sha, git_describe }
    }
}

/// Everything the health route reports. Replaced wholesale on every
/// successful fetch.
#[derive(Clone, Debug, PartialEq, Eq)]
pub struct HealthState {
    pub model: Option<String>,
    pub chat_model: Option<String>,
    pub device: String,
    pub arch: String,
    pub cpu_info: String,
    pub cpu_count: usize,
    pub cuda_devices: Vec<String>,
    pub version: Version,
}

impl HealthState {
    /// Assembles a health report from the served models, the device, and the
    /// machine facts the embedding application read.
    pub fn new(
        model: Option<&str>,
        chat_model: Option<&str>,
        device: &Device,
        arch: String,
        cpu_info: String,
        cpu_count: usize,
        cuda_devices: Vec<String>,
        version: Version,
    ) -> (h: Self)
        ensures
            h.model.deep_view() == model.deep_view(),
            h.chat_model.deep_view() == chat_model.deep_view(),
            h.device@ == device_name_spec(*device),
            h.arch == arch,
            h.cpu_info == cpu_info,
            h.cpu_count == cpu_count,
            h.cuda_devices == cuda_devices,
            h.version == version,
    {
        let owned_model = match model {
            Option::Some(x) => Option::Some(x.to_owned()),
            Option::None => Option::None,
        };
        let owned_chat_model = match chat_model {
            Option::Some(x) => Option::Some(x.to_owned()),
            Option::None => Option::None,
        };
        HealthState {
            model: owned_model,
            chat_model: owned_chat_model,
            device: device.name(),
            arch,
            cpu_info,
            cpu_count,
            cuda_devices,
            version,
        }
    }
}

/// What the client knows about the server's health: the last full report, or
/// nothing — the explicit "unreachable" sentinel.
#[derive(Clone, Debug, PartialEq, Eq)]
pub struct TabbyClientViewData {
    pub health_state: Option<HealthState>,
}

/// Folds the outcome of a health fetch into the view model: a successful
/// fetch is carried whole, every error becomes the unreachable sentinel. The
/// view never mixes fresh and stale fields.
pub fn health_view_from_result(r: Result<HealthState, TabbyApiError>) -> (v: TabbyClientViewData)
    ensures
        r matches Ok(h) ==> v.health_state == Some(h),
        r is Err ==> v.health_state is None,
{
    match r {
        Result::Ok(h) => TabbyClientViewData { health_state: Option::Some(h) },
        Result::Err(_) => TabbyClientViewData { health_state: Option::None },
    }
}

/// The label shown for the served model: its name, or a fixed fallback when
/// the server reports none.
pub open spec fn model_label_spec(m: Option<String>) -> Seq<char> {
    match m {
        Option::Some(s) => s@,
        Option::None => "unknown"@,
    }
}

/// The elements joined with a comma and a space, in order.
pub open spec fn join_comma(parts: Seq<Seq<char>>) -> Seq<char>
    decreases parts.len(),
{
    if parts.len() == 0 {
        Seq::empty()
    } else if parts.len() == 1 {
        parts.first()
    } else {
        parts.first() + ", "@ + join_comma(parts.drop_first())
    }
}

/// What is still to be emitted when the first `i` elements are joined.
spec fn join_comma_tail(parts: Seq<Seq<char>>, i: int) -> Seq<char> {
    if i >= parts.len() {
        Seq::empty()
    } else if i == 0 {
        join_comma(parts)
    } else {
        ", "@ + join_comma(parts.skip(i))
    }
}

/// The window title derived from a health view: a fixed "not responding"
/// indicator for the sentinel, else the version, model and device of the
/// report, with the CUDA devices appended when any are present.
pub open spec fn health_title_spec(v: TabbyClientViewData) -> Seq<char> {
    match v.health_state {
        Option::None => "⚠️ Tabby not respond"@,
        Option::Some(h) => {
            let base = "Tabby "@ + h.version.git_describe@ + " | "@ + model_label_spec(h.model)
                + " | "@ + h.device@;
            if h.cuda_devices@.len() > 0 {
                base + " ("@ + join_comma(h.cuda_devices@.map_values(|s: String| s@)) + ") "@
            } else {
                base
            }
        },
    }
}

/// Renders the title. On the unreachable sentinel the result is the fixed
/// indicator, never any stale field.
pub fn render_health_title(v: &TabbyClientViewData) -> (r: String)
    ensures
        r@ == health_title_spec(*v),
{
    match &v.health_state {
        Option::None => "⚠️ Tabby not respond".to_owned(),
        Option::Some(h) => {
            let mut out: Vec<char> = Vec::new();
            push_str_chars(&mut out, "Tabby ");
            push_str_chars(&mut out, h.version.git_describe.as_str());
            push_str_chars(&mut out, " | ");
            match &h.model {
                Option::Some(m) => push_str_chars(&mut out, m.as_str()),
                Option::None => push_str_chars(&mut out, "unknown"),
            }
            push_str_chars(&mut out, " | ");
            push_str_chars(&mut out, h.device.as_str());
            if h.cuda_devices.len() > 0 {
                push_str_chars(&mut out, " (");
                let ghost parts = h.cuda_devices@.map_values(|s: String| s@);
                let ghost base = out@;
                let n = h.cuda_devices.len();
                let mut i: usize = 0;
                while i < n
                    invariant
                        i <= n,
                        n == h.cuda_devices@.len(),
                        parts == h.cuda_devices@.map_values(|s: String| s@),
                        base.len() <= out@.len(),
                        out@.take(base.len() as int) == base,
                        out@.skip(base.len() as int) + join_comma_tail(parts, i as int)
                            == join_comma(parts),
                    decreases n - i,
                {
                    let ghost emitted = out@.skip(base.len() as int);
                    if i > 0 {
                        push_str_chars(&mut out, ", ");
                    }
                    push_str_chars(&mut out, h.cuda_devices[i].as_str());
                    proof {
                        let p_i = parts[i as int];
                        assert(p_i == h.cuda_devices@[i as int]@);
                        assert(out@.take(base.len() as int) =~= base);
                        assert(parts.skip(i as int).first() == p_i);
                        assert(parts.skip(i as int).drop_first() =~= parts.skip(i + 1));
                        if i == 0 {
                            assert(emitted.len() == 0);
                            assert(out@.skip(base.len() as int) =~= p_i);
                        } else {
                            assert(out@.skip(base.len() as int) =~= emitted + ", "@ + p_i);
                        }
                        assert(out@.skip(base.len() as int) + join_comma_tail(parts, i + 1)
                            =~= join_comma(parts));
                    }
                    i += 1;
                }
                push_str_chars(&mut out, ") ");
            }
            chars_to_string(&out)
        },
    }
}

} // verus!
