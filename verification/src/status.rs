//! The status line: wall-clock text, network state and battery level,
//! composed from plain values. The platform adapter samples the clock and
//! publishes the network state; the texts themselves are built here.
use vstd::prelude::*;
use vstd::string::*;

use crate::textfmt::{fmt_two_digits, fmt_u64, spec_two_digits, spec_u64_text};

verus! {

/// Seconds in one day, for wrapping the clock display.
pub const SECONDS_PER_DAY: u64 = 86400;

/// How the radio is being used.
#[derive(Clone, Copy, Debug, PartialEq, Eq, Structural)]
pub enum WifiMode {
    AccessPoint,
    Station,
}

/// The network state the radio layer last published.
#[derive(Clone, Debug)]
pub struct WifiState {
    pub mode: WifiMode,
    pub ssid: String,
    pub ip: Option<String>,
}

/// The three texts drawn in the menu header's corner.
#[derive(Clone, Debug, Default)]
pub struct StatusSnapshot {
    pub clock_text: String,
    pub wifi_text: String,
    pub battery_text: String,
}

/// The battery level source. The present hardware revision reports no
/// gauge, so the level reads as full.
#[derive(Clone, Copy, Debug, Default)]
pub struct BatteryGauge;

impl BatteryGauge {
    /// A gauge handle.
    pub fn new() -> (g: Self)
        ensures
            g == BatteryGauge,
    {
        Self
    }

    /// The charge percentage, when the hardware reports one.
    pub fn percent(&self) -> (p: Option<u8>)
        ensures
            p == Some(100u8),
    {
        Some(100)
    }
}

/// "HH:MM:SS" for a second count, wrapped to one day.
pub open spec fn spec_hms_text(total_seconds: int) -> Seq<char> {
    let t = total_seconds % (SECONDS_PER_DAY as int);
    spec_two_digits(t / 3600) + seq![':'] + spec_two_digits((t % 3600) / 60) + seq![':']
        + spec_two_digits(t % 60)
}

/// Renders a second count as a zero-padded "HH:MM:SS" clock.
pub fn format_hms(total_seconds: u64) -> (s: String)
    ensures
        s@ == spec_hms_text(total_seconds as int),
{
    let t = total_seconds % SECONDS_PER_DAY;
    let hours = t / 3600;
    let minutes = (t % 3600) / 60;
    let seconds = t % 60;
    let s = fmt_two_digits(hours).concat(":").concat(fmt_two_digits(minutes).as_str()).concat(
        ":",
    ).concat(fmt_two_digits(seconds).as_str());
    proof {
        reveal_strlit(":");
        assert(s@ =~= spec_hms_text(total_seconds as int));
    }
    s
}

/// The network status text: mode tag, SSID and address when the radio is
/// up, a fixed offline text otherwise.
pub open spec fn spec_wifi_text(wifi: Option<WifiState>) -> Seq<char> {
    match wifi {
        None => "WiFi offline"@,
        Some(state) => {
            let ip = match state.ip {
                Some(ip) => ip@,
                None => "..."@,
            };
            match state.mode {
                WifiMode::AccessPoint => "AP "@ + state.ssid@ + " @ "@ + ip,
                WifiMode::Station => "WiFi "@ + state.ssid@ + " @ "@ + ip,
            }
        },
    }
}

/// The battery status text: the percentage, or dashes without a gauge.
pub open spec fn spec_battery_text(percent: Option<u8>) -> Seq<char> {
    match percent {
        Some(p) => "Batt "@ + spec_u64_text(p as int) + "%"@,
        None => "Batt --%"@,
    }
}

/// Supplies the status snapshot each tick from the published network
/// state, the battery gauge, and the platform's clock reading.
pub struct StatusProvider {
    pub wifi: Option<WifiState>,
    pub battery: BatteryGauge,
}

impl StatusProvider {
    /// Records the sources the snapshots will be composed from.
    pub fn new(wifi: Option<WifiState>, battery: BatteryGauge) -> (s: Self)
        ensures
            s.wifi == wifi,
            s.battery == battery,
    {
        Self { wifi, battery }
    }

    /// Composes the three header texts for the clock reading `now_seconds`
    /// (seconds since the epoch, as the platform reports them).
    pub fn snapshot(&self, now_seconds: u64) -> (snap: StatusSnapshot)
        ensures
            snap.clock_text@ == spec_hms_text(now_seconds as int),
            snap.wifi_text@ == spec_wifi_text(self.wifi),
            snap.battery_text@ == spec_battery_text(Some(100u8)),
    {
        StatusSnapshot {
            clock_text: format_hms(now_seconds),
            wifi_text: self.wifi_text(),
            battery_text: self.battery_text(),
        }
    }

    /// Renders the network status text.
    pub fn wifi_text(&self) -> (s: String)
        ensures
            s@ == spec_wifi_text(self.wifi),
    {
        match &self.wifi {
            None => String::from_str("WiFi offline"),
            Some(state) => {
                let ip: &str = match &state.ip {
                    Some(ip) => ip.as_str(),
                    None => "...",
                };
                let tag: &str = match state.mode {
                    WifiMode::AccessPoint => "AP ",
                    WifiMode::Station => "WiFi ",
                };
                let s = String::from_str(tag).concat(state.ssid.as_str()).concat(" @ ").concat(
                    ip,
                );
                proof {
                    reveal_strlit("AP ");
                    reveal_strlit("WiFi ");
                    assert(s@ =~= spec_wifi_text(self.wifi));
                }
                s
            },
        }
    }

    /// Renders the battery status text.
    pub fn battery_text(&self) -> (s: String)
        ensures
            s@ == spec_battery_text(Some(100u8)),
    {
        match self.battery.percent() {
            Some(p) => {
                let s = String::from_str("Batt ").concat(fmt_u64(p as u64).as_str()).concat("%");
                proof {
                    reveal_strlit("Batt ");
                    reveal_strlit("%");
                    assert(s@ =~= spec_battery_text(Some(100u8)));
                }
                s
            },
            None => String::from_str("Batt --%"),
        }
    }
}

} // verus!
