//! Keeping the embedded PanSou sidecar in step with its configuration.
//!
//! The decisions are a state machine: [`sync_step`] takes the phase reached
//! and what the last action found out, and answers what to do next. Whoever
//! runs it performs the actions (health checks, the port check, starting the
//! sidecar, waiting) and feeds their outcomes back as events.
use vstd::prelude::*;
use crate::lists::join_strings;
use crate::model::{
    views, EmbeddedPansouConfig, EmbeddedPansouStatus, EmbeddedPansouView, SearchSettings, SearchSource, SourceView,
    StatusView,
};
use crate::settings::{embedded_endpoint_of, embedded_pansou_endpoint};
use crate::text::{concat2, concat3, decimal, join, owned, u64_to_string};

verus! {

/// How many health checks are made while the sidecar starts.
pub const STARTUP_HEALTH_CHECKS: u32 = 24;

/// How long to wait between two of those checks, in milliseconds.
pub const STARTUP_POLL_MILLIS: u64 = 250;

/// Where keeping the sidecar in step has got to.
#[derive(PartialEq, Eq, Structural, Clone, Copy, Debug)]
pub enum SyncPhase {
    /// Nothing done yet.
    Start,
    /// The first health check was asked for.
    FirstHealth,
    /// The port check was asked for.
    PortCheck,
    /// Starting the sidecar was asked for.
    Spawning,
    /// The sidecar was started and this many health checks have failed since.
    Waiting(u32),
    /// Nothing more to do.
    Finished,
}

/// What the last action found out.
pub enum SyncEvent {
    /// The machine is set going.
    Begin,
    /// The outcome of a health check, and whether a sidecar of ours runs.
    Health { healthy: bool, owned_child: bool },
    /// Whether something already listens on the port.
    PortOpen(bool),
    /// The sidecar was started.
    Spawned,
    /// Starting the sidecar failed with this message.
    SpawnFailed(String),
}

/// What to ask of the outside after the other effects of a step.
#[derive(PartialEq, Eq, Structural, Clone, Copy, Debug)]
pub enum SyncRequest {
    CheckHealth,
    CheckPort,
    Spawn,
    Finish,
}

/// The effects of one step, performed in field order: wait, stop the
/// sidecar we own (giving the status this message), publish a status, then
/// make the request.
pub struct SyncStep {
    pub next: SyncPhase,
    pub sleep_first: bool,
    pub stop_owned: Option<String>,
    pub status: Option<EmbeddedPansouStatus>,
    pub request: SyncRequest,
}

/// The abstract value of a step.
pub struct StepView {
    pub next: SyncPhase,
    pub sleep_first: bool,
    pub stop_owned: Option<Seq<char>>,
    pub status: Option<StatusView>,
    pub request: SyncRequest,
}

impl View for SyncStep {
    type V = StepView;

    open spec fn view(&self) -> StepView {
        StepView {
            next: self.next,
            sleep_first: self.sleep_first,
            stop_owned: match self.stop_owned {
                Some(m) => Some(m@),
                None => None,
            },
            status: match self.status {
                Some(s) => Some(s@),
                None => None,
            },
            request: self.request,
        }
    }
}

/// A status of the sidecar on the port of `c`.
pub open spec fn status_of(c: EmbeddedPansouView, enabled: bool, running: bool, reused: bool, message: Seq<char>) -> StatusView {
    StatusView { enabled, running, reused, endpoint: embedded_endpoint_of(c.port), port: c.port, message }
}

/// A step with no waiting and no stop.
pub open spec fn plain(next: SyncPhase, status: Option<StatusView>, request: SyncRequest) -> StepView {
    StepView { next, sleep_first: false, stop_owned: None, status, request }
}

/// The message of a step that finds the port taken.
pub open spec fn port_taken_message(port: u16) -> Seq<char> {
    "端口 "@ + decimal(port as nat) + " 已被其他程序占用"@
}

/// What keeping the sidecar of configuration `c` in step does next, in phase
/// `phase`, on `event`:
/// - at the start, a sidecar that is disabled or not auto-started is stopped
///   and reported off; otherwise its health is checked;
/// - a healthy sidecar is reported running (reused when it is not ours);
///   an unhealthy one is stopped and the port is checked;
/// - a taken port is reported; a free one gets the sidecar started;
/// - a failed start is reported; a started sidecar is reported starting and
///   its health is checked up to [`STARTUP_HEALTH_CHECKS`] times, waiting
///   before each new check, until it is healthy (reported running) or the
///   checks run out (stopped and reported timed out).
/// An event that does not fit the phase finishes with nothing done.
pub open spec fn sync_step_of(c: EmbeddedPansouView, phase: SyncPhase, event: SyncEvent) -> StepView {
    match (phase, event) {
        (SyncPhase::Start, SyncEvent::Begin) => if !c.enabled || !c.auto_start {
            StepView {
                next: SyncPhase::Finished,
                sleep_first: false,
                stop_owned: Some("内置 PanSou 已关闭"@),
                status: Some(
                    status_of(
                        c,
                        c.enabled,
                        false,
                        false,
                        if c.enabled {
                            "内置 PanSou 未设置为自动启动"@
                        } else {
                            "内置 PanSou 已关闭"@
                        },
                    ),
                ),
                request: SyncRequest::Finish,
            }
        } else {
            plain(SyncPhase::FirstHealth, None, SyncRequest::CheckHealth)
        },
        (SyncPhase::FirstHealth, SyncEvent::Health { healthy, owned_child }) => if healthy {
            plain(
                SyncPhase::Finished,
                Some(
                    status_of(
                        c,
                        true,
                        true,
                        !owned_child,
                        if !owned_child {
                            "已连接本机 PanSou"@
                        } else {
                            "内置 PanSou 运行中"@
                        },
                    ),
                ),
                SyncRequest::Finish,
            )
        } else {
            StepView {
                next: SyncPhase::PortCheck,
                sleep_first: false,
                stop_owned: Some("正在启动内置 PanSou"@),
                status: None,
                request: SyncRequest::CheckPort,
            }
        },
        (SyncPhase::PortCheck, SyncEvent::PortOpen(open)) => if open {
            plain(
                SyncPhase::Finished,
                Some(status_of(c, true, false, false, port_taken_message(c.port))),
                SyncRequest::Finish,
            )
        } else {
            plain(SyncPhase::Spawning, None, SyncRequest::Spawn)
        },
        (SyncPhase::Spawning, SyncEvent::Spawned) => plain(
            SyncPhase::Waiting(0),
            Some(status_of(c, true, false, false, "内置 PanSou 正在启动"@)),
            SyncRequest::CheckHealth,
        ),
        (SyncPhase::Spawning, SyncEvent::SpawnFailed(e)) => plain(
            SyncPhase::Finished,
            Some(status_of(c, true, false, false, "内置 PanSou 启动失败："@ + e@)),
            SyncRequest::Finish,
        ),
        (SyncPhase::Waiting(failed), SyncEvent::Health { healthy, owned_child }) => if healthy {
            plain(
                SyncPhase::Finished,
                Some(status_of(c, true, true, false, "内置 PanSou 运行中"@)),
                SyncRequest::Finish,
            )
        } else if failed + 1 < STARTUP_HEALTH_CHECKS {
            StepView {
                next: SyncPhase::Waiting((failed + 1) as u32),
                sleep_first: true,
                stop_owned: None,
                status: None,
                request: SyncRequest::CheckHealth,
            }
        } else {
            StepView {
                next: SyncPhase::Finished,
                sleep_first: true,
                stop_owned: Some("内置 PanSou 启动超时"@),
                status: Some(status_of(c, true, false, false, "内置 PanSou 启动超时"@)),
                request: SyncRequest::Finish,
            }
        },
        _ => plain(SyncPhase::Finished, None, SyncRequest::Finish),
    }
}

/// A status of the sidecar of `config`.
fn status_for(config: &EmbeddedPansouConfig, enabled: bool, running: bool, reused: bool, message: String) -> (r:
    EmbeddedPansouStatus)
    ensures
        r@ == status_of(config@, enabled, running, reused, message@),
{
    EmbeddedPansouStatus {
        enabled,
        running,
        reused,
        endpoint: embedded_pansou_endpoint(config.port),
        port: config.port,
        message,
    }
}

/// A step with no waiting and no stop.
fn plain_step(next: SyncPhase, status: Option<EmbeddedPansouStatus>, request: SyncRequest) -> (r: SyncStep)
    ensures
        r@ == plain(
            next,
            match status {
                Some(s) => Some(s@),
                None => None,
            },
            request,
        ),
{
    SyncStep { next, sleep_first: false, stop_owned: None, status, request }
}

/// What keeping the sidecar of the normalized configuration `config` in step
/// does next (see [`sync_step_of`]).
pub fn sync_step(config: &EmbeddedPansouConfig, phase: SyncPhase, event: SyncEvent) -> (r: SyncStep)
    ensures
        r@ == sync_step_of(config@, phase, event),
{
    match (phase, event) {
        (SyncPhase::Start, SyncEvent::Begin) => {
            if !config.enabled || !config.auto_start {
                let message = if config.enabled {
                    owned("内置 PanSou 未设置为自动启动")
                } else {
                    owned("内置 PanSou 已关闭")
                };
                SyncStep {
                    next: SyncPhase::Finished,
                    sleep_first: false,
                    stop_owned: Some(owned("内置 PanSou 已关闭")),
                    status: Some(status_for(config, config.enabled, false, false, message)),
                    request: SyncRequest::Finish,
                }
            } else {
                plain_step(SyncPhase::FirstHealth, None, SyncRequest::CheckHealth)
            }
        },
        (SyncPhase::FirstHealth, SyncEvent::Health { healthy, owned_child }) => {
            if healthy {
                let message = if !owned_child {
                    owned("已连接本机 PanSou")
                } else {
                    owned("内置 PanSou 运行中")
                };
                plain_step(
                    SyncPhase::Finished,
                    Some(status_for(config, true, true, !owned_child, message)),
                    SyncRequest::Finish,
                )
            } else {
                SyncStep {
                    next: SyncPhase::PortCheck,
                    sleep_first: false,
                    stop_owned: Some(owned("正在启动内置 PanSou")),
                    status: None,
                    request: SyncRequest::CheckPort,
                }
            }
        },
        (SyncPhase::PortCheck, SyncEvent::PortOpen(open)) => {
            if open {
                let number = u64_to_string(config.port as u64);
                let message = concat3("端口 ", number.as_str(), " 已被其他程序占用");
                plain_step(SyncPhase::Finished, Some(status_for(config, true, false, false, message)), SyncRequest::Finish)
            } else {
                plain_step(SyncPhase::Spawning, None, SyncRequest::Spawn)
            }
        },
        (SyncPhase::Spawning, SyncEvent::Spawned) => plain_step(
            SyncPhase::Waiting(0),
            Some(status_for(config, true, false, false, owned("内置 PanSou 正在启动"))),
            SyncRequest::CheckHealth,
        ),
        (SyncPhase::Spawning, SyncEvent::SpawnFailed(e)) => {
            let message = concat2("内置 PanSou 启动失败：", e.as_str());
            plain_step(SyncPhase::Finished, Some(status_for(config, true, false, false, message)), SyncRequest::Finish)
        },
        (SyncPhase::Waiting(failed), SyncEvent::Health { healthy, owned_child }) => {
            if healthy {
                plain_step(
                    SyncPhase::Finished,
                    Some(status_for(config, true, true, false, owned("内置 PanSou 运行中"))),
                    SyncRequest::Finish,
                )
            } else if failed < STARTUP_HEALTH_CHECKS - 1 {
                SyncStep {
                    next: SyncPhase::Waiting(failed + 1),
                    sleep_first: true,
                    stop_owned: None,
                    status: None,
                    request: SyncRequest::CheckHealth,
                }
            } else {
                SyncStep {
                    next: SyncPhase::Finished,
                    sleep_first: true,
                    stop_owned: Some(owned("内置 PanSou 启动超时")),
                    status: Some(status_for(config, true, false, false, owned("内置 PanSou 启动超时"))),
                    request: SyncRequest::Finish,
                }
            }
        },
        _ => plain_step(SyncPhase::Finished, None, SyncRequest::Finish),
    }
}

/// The status after stopping the sidecar we own: not running, not reused,
/// with `message`; the rest unchanged.
pub fn stopped_status(status: &EmbeddedPansouStatus, message: &str) -> (r: EmbeddedPansouStatus)
    ensures
        r@ == (StatusView { running: false, reused: false, message: message@, ..status@ }),
{
    EmbeddedPansouStatus {
        enabled: status.enabled,
        running: false,
        reused: false,
        endpoint: status.endpoint.clone(),
        port: status.port,
        message: owned(message),
    }
}

/// The environment the sidecar of `config` is started with, caching into
/// `cache_path`: its port, whether to cache, the cache path and limits, and
/// its plugins and channels joined by commas.
pub open spec fn sidecar_env_of(c: EmbeddedPansouView, cache_path: Seq<char>) -> Seq<(Seq<char>, Seq<char>)> {
    seq![
        ("PORT"@, decimal(c.port as nat)),
        ("CACHE_ENABLED"@, if c.cache { "true"@ } else { "false"@ }),
        ("CACHE_PATH"@, cache_path),
        ("CACHE_MAX_SIZE"@, "100"@),
        ("CACHE_TTL"@, "60"@),
        ("ASYNC_CACHE_TTL_HOURS"@, "1"@),
        ("ENABLED_PLUGINS"@, join(c.plugins, ","@)),
        ("CHANNELS"@, join(c.channels, ","@)),
    ]
}

/// The environment the sidecar of `config` is started with.
pub fn sidecar_env(config: &EmbeddedPansouConfig, cache_path: &str) -> (r: Vec<(String, String)>)
    ensures
        r@.map_values(|p: (String, String)| (p.0@, p.1@)) == sidecar_env_of(config@, cache_path@),
{
    let cache = if config.cache { owned("true") } else { owned("false") };
    let r = vec![
        (owned("PORT"), u64_to_string(config.port as u64)),
        (owned("CACHE_ENABLED"), cache),
        (owned("CACHE_PATH"), owned(cache_path)),
        (owned("CACHE_MAX_SIZE"), owned("100")),
        (owned("CACHE_TTL"), owned("60")),
        (owned("ASYNC_CACHE_TTL_HOURS"), owned("1")),
        (owned("ENABLED_PLUGINS"), join_strings(&config.plugins, ",")),
        (owned("CHANNELS"), join_strings(&config.channels, ",")),
    ];
    assert(r@.map_values(|p: (String, String)| (p.0@, p.1@)) =~= sidecar_env_of(config@, cache_path@));
    r
}

/// Whether saving settings brings the sidecar in step: when its
/// configuration changed or it is enabled.
pub fn should_sync_after_save(old: &EmbeddedPansouConfig, new: &EmbeddedPansouConfig) -> (r: bool)
    ensures
        r == (old@ != new@ || new.enabled),
{
    crate::settings::embedded_pansou_config_changed(old, new) || new.enabled
}

/// Whether listing the sources brings the sidecar in step: when it is
/// enabled and set to start by itself.
pub fn should_sync_for_listing(config: &EmbeddedPansouConfig) -> (r: bool)
    ensures
        r == (config.enabled && config.auto_start),
{
    config.enabled && config.auto_start
}

/// Whether a search brings the sidecar in step: when the embedded PanSou is
/// among the selected sources and enabled.
pub fn should_sync_for_search(selected: &Vec<SearchSource>, settings: &SearchSettings) -> (r: bool)
    ensures
        r == (settings.embedded_pansou.enabled && exists|k: int|
            0 <= k < selected@.len() && (#[trigger] selected@[k]).id@ == "embedded-pansou"@),
{
    if !settings.embedded_pansou.enabled {
        return false;
    }
    let mut i: usize = 0;
    while i < selected.len()
        invariant
            i <= selected.len(),
            settings.embedded_pansou.enabled,
            forall|k: int| 0 <= k < i ==> (#[trigger] selected@[k]).id@ != "embedded-pansou"@,
        decreases selected.len() - i,
    {
        if crate::text::same_text(selected[i].id.as_str(), "embedded-pansou") {
            assert(selected@[i as int].id@ == "embedded-pansou"@);
            return true;
        }
        i += 1;
    }
    false
}

} // verus!
