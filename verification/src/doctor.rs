//! Whether the system is ready for a hotspot. Each check decides on what was found (the
//! interface reads the system and shows the texts).

use vstd::prelude::*;
use crate::iw::WifiCaps;
use crate::text::{chars_eq, chars_to_string, lit, str_chars, strs, trim, trim_exec};

verus! {

broadcast use vstd::slice::group_slice_axioms;

#[derive(Debug, Clone, Copy, PartialEq, Eq, Structural)]
pub enum Status {
    Good,
    Warn,
    Fail,
}

#[derive(Debug, Clone, Copy, PartialEq, Eq, Structural)]
pub enum CheckId {
    NetworkManager,
    Dnsmasq,
    WifiAp,
    Uplink,
    Firewall,
    Country,
    Helper,
}

/// What a check found.
#[derive(Debug, Clone, PartialEq, Eq)]
pub enum Detail {
    Running,
    NotRunning,
    Installed,
    NotInstalled,
    NoWifi,
    NoAp,
    /// The first Wi-Fi adapter can be an access point; with WPA3 (SAE) and 5 GHz or not.
    WifiAp { iface: String, wpa3: bool, five_ghz: bool },
    /// The uplink interface.
    Iface(String),
    NoRoute,
    UfwActive,
    UfwInactive,
    UfwUnknown,
    HelperMissing,
    /// The Wi-Fi country.
    Country(String),
    CountryUnset,
}

/// What to do about a finding.
#[derive(Debug, Clone, Copy, PartialEq, Eq, Structural)]
pub enum Advice {
    NmInactive,
    InstallDnsmasq,
    NoWifi,
    NoAp,
    UplinkIsWifi,
    NoUplink,
    HelperMissing,
    CountryUnset,
}

#[derive(Debug, Clone, PartialEq, Eq)]
pub struct Check {
    pub id: CheckId,
    pub status: Status,
    pub detail: Detail,
    pub advice: Option<Advice>,
}

/// NetworkManager runs: `nmcli -t -f RUNNING general` printed `running` (`None`: nmcli
/// could not be run).
pub fn check_network_manager(general: Option<&str>) -> (c: Check)
    ensures
        c.id == CheckId::NetworkManager,
        (general matches Some(o) && trim(o@) == "running"@) ==> (c.status == Status::Good
            && c.detail == Detail::Running && c.advice is None),
        !(general matches Some(o) && trim(o@) == "running"@) ==> (c.status == Status::Fail
            && c.detail == Detail::NotRunning && c.advice == Some(Advice::NmInactive)),
{
    let running = match general {
        Some(o) => {
            let cs = str_chars(o);
            let t = trim_exec(cs.as_slice());
            let want = lit("running");
            chars_eq(t.as_slice(), want.as_slice())
        },
        None => false,
    };
    if running {
        Check { id: CheckId::NetworkManager, status: Status::Good, detail: Detail::Running, advice: None }
    } else {
        Check {
            id: CheckId::NetworkManager,
            status: Status::Fail,
            detail: Detail::NotRunning,
            advice: Some(Advice::NmInactive),
        }
    }
}

/// dnsmasq is installed (NetworkManager's shared mode needs it).
pub fn check_dnsmasq(installed: bool) -> (c: Check)
    ensures
        c.id == CheckId::Dnsmasq,
        installed ==> (c.status == Status::Good && c.detail == Detail::Installed && c.advice is None),
        !installed ==> (c.status == Status::Fail && c.detail == Detail::NotInstalled && c.advice
            == Some(Advice::InstallDnsmasq)),
{
    if installed {
        Check { id: CheckId::Dnsmasq, status: Status::Good, detail: Detail::Installed, advice: None }
    } else {
        Check {
            id: CheckId::Dnsmasq,
            status: Status::Fail,
            detail: Detail::NotInstalled,
            advice: Some(Advice::InstallDnsmasq),
        }
    }
}

/// There is a Wi-Fi adapter and its card can be an access point (`caps`: the card's
/// capabilities, empty when they could not be read).
pub fn check_wifi_ap(wifi_ifaces: &[String], caps: &WifiCaps) -> (c: Check)
    ensures
        c.id == CheckId::WifiAp,
        wifi_ifaces@.len() == 0 ==> (c.status == Status::Fail && c.detail == Detail::NoWifi
            && c.advice == Some(Advice::NoWifi)),
        (wifi_ifaces@.len() > 0 && !caps.ap) ==> (c.status == Status::Fail && c.detail
            == Detail::NoAp && c.advice == Some(Advice::NoAp)),
        (wifi_ifaces@.len() > 0 && caps.ap) ==> (c.status == Status::Good && c.advice is None
            && (c.detail matches Detail::WifiAp { iface, wpa3, five_ghz } && iface@
            == wifi_ifaces@[0]@ && wpa3 == caps.sae && five_ghz == (caps.channels_5ghz@.len()
            > 0))),
{
    if wifi_ifaces.len() == 0 {
        return Check {
            id: CheckId::WifiAp,
            status: Status::Fail,
            detail: Detail::NoWifi,
            advice: Some(Advice::NoWifi),
        };
    }
    if !caps.ap {
        return Check {
            id: CheckId::WifiAp,
            status: Status::Fail,
            detail: Detail::NoAp,
            advice: Some(Advice::NoAp),
        };
    }
    Check {
        id: CheckId::WifiAp,
        status: Status::Good,
        detail: Detail::WifiAp {
            iface: wifi_ifaces[0].clone(),
            wpa3: caps.sae,
            five_ghz: caps.channels_5ghz.len() > 0,
        },
        advice: None,
    }
}

/// There is a route to the internet (`uplink`: its interface; `None`: no route or it could
/// not be read). Internet over Wi-Fi is a warning: the adapter cannot be both.
pub fn check_uplink(uplink: Option<String>, wifi_ifaces: &[String]) -> (c: Check)
    ensures
        c.id == CheckId::Uplink,
        match uplink {
            Some(dev) => c.detail matches Detail::Iface(d) && d@ == dev@ && if strs(
                wifi_ifaces@,
            ).contains(dev@) {
                c.status == Status::Warn && c.advice == Some(Advice::UplinkIsWifi)
            } else {
                c.status == Status::Good && c.advice is None
            },
            None => c.status == Status::Fail && c.detail == Detail::NoRoute && c.advice == Some(
                Advice::NoUplink,
            ),
        },
{
    match uplink {
        Some(dev) => {
            let ghost w = strs(wifi_ifaces@);
            let d = str_chars(dev.as_str());
            let mut on_wifi = false;
            let mut i: usize = 0;
            while i < wifi_ifaces.len()
                invariant
                    i <= wifi_ifaces@.len(),
                    w == strs(wifi_ifaces@),
                    d@ == dev@,
                    on_wifi == exists|k: int| 0 <= k < i && (#[trigger] w[k]) == dev@,
                decreases wifi_ifaces.len() - i,
            {
                let x = str_chars(wifi_ifaces[i].as_str());
                if chars_eq(x.as_slice(), d.as_slice()) {
                    on_wifi = true;
                }
                assert(w[i as int] == wifi_ifaces@[i as int]@);
                i = i + 1;
            }
            if on_wifi {
                Check {
                    id: CheckId::Uplink,
                    status: Status::Warn,
                    detail: Detail::Iface(dev),
                    advice: Some(Advice::UplinkIsWifi),
                }
            } else {
                Check { id: CheckId::Uplink, status: Status::Good, detail: Detail::Iface(dev), advice: None }
            }
        },
        None => Check {
            id: CheckId::Uplink,
            status: Status::Fail,
            detail: Detail::NoRoute,
            advice: Some(Advice::NoUplink),
        },
    }
}

/// The state of ufw (`None`: it could not be asked). Either state is fine: the helper sets
/// its own rules.
pub fn check_firewall(ufw_active: Option<bool>) -> (c: Check)
    ensures
        c.id == CheckId::Firewall,
        c.advice is None,
        match ufw_active {
            Some(true) => c.status == Status::Good && c.detail == Detail::UfwActive,
            Some(false) => c.status == Status::Good && c.detail == Detail::UfwInactive,
            None => c.status == Status::Warn && c.detail == Detail::UfwUnknown,
        },
{
    match ufw_active {
        Some(true) => Check { id: CheckId::Firewall, status: Status::Good, detail: Detail::UfwActive, advice: None },
        Some(false) => Check {
            id: CheckId::Firewall,
            status: Status::Good,
            detail: Detail::UfwInactive,
            advice: None,
        },
        None => Check { id: CheckId::Firewall, status: Status::Warn, detail: Detail::UfwUnknown, advice: None },
    }
}

/// The root helper and its polkit policy are in place; without them the hotspot runs without
/// its firewall.
pub fn check_helper(helper: bool, policy: bool) -> (c: Check)
    ensures
        c.id == CheckId::Helper,
        (helper && policy) ==> (c.status == Status::Good && c.detail == Detail::Installed
            && c.advice is None),
        !(helper && policy) ==> (c.status == Status::Warn && c.detail == Detail::HelperMissing
            && c.advice == Some(Advice::HelperMissing)),
{
    if helper && policy {
        Check { id: CheckId::Helper, status: Status::Good, detail: Detail::Installed, advice: None }
    } else {
        Check {
            id: CheckId::Helper,
            status: Status::Warn,
            detail: Detail::HelperMissing,
            advice: Some(Advice::HelperMissing),
        }
    }
}

/// The Wi-Fi country is set (`None`: not set or not readable).
pub fn check_country(country: Option<String>) -> (c: Check)
    ensures
        c.id == CheckId::Country,
        match country {
            Some(cc) => c.status == Status::Good && c.advice is None && (c.detail matches Detail::Country(
                x,
            ) && x@ == cc@),
            None => c.status == Status::Warn && c.detail == Detail::CountryUnset && c.advice == Some(
                Advice::CountryUnset,
            ),
        },
{
    match country {
        Some(cc) => Check { id: CheckId::Country, status: Status::Good, detail: Detail::Country(cc), advice: None },
        None => Check {
            id: CheckId::Country,
            status: Status::Warn,
            detail: Detail::CountryUnset,
            advice: Some(Advice::CountryUnset),
        },
    }
}

/// Some check failed (then the doctor exits with an error).
pub fn any_failed(checks: &[Check]) -> (b: bool)
    ensures
        b == exists|i: int| 0 <= i < checks@.len() && (#[trigger] checks@[i]).status == Status::Fail,
{
    let mut i: usize = 0;
    while i < checks.len()
        invariant
            i <= checks@.len(),
            forall|k: int| 0 <= k < i ==> (#[trigger] checks@[k]).status != Status::Fail,
        decreases checks.len() - i,
    {
        if checks[i].status == Status::Fail {
            return true;
        }
        i = i + 1;
    }
    false
}

// ---------------------------------------------------------------------------------------
// Texts
// ---------------------------------------------------------------------------------------
impl CheckId {
    pub open spec fn title_text(self) -> Seq<char> {
        match self {
            CheckId::NetworkManager => "NetworkManager"@,
            CheckId::Dnsmasq => "dnsmasq"@,
            CheckId::WifiAp => "Access point mode"@,
            CheckId::Uplink => "Internet connection"@,
            CheckId::Firewall => "Firewall (ufw)"@,
            CheckId::Country => "Wi-Fi country"@,
            CheckId::Helper => "System helper"@,
        }
    }

    /// The check's title.
    pub fn title(self) -> (r: &'static str)
        ensures
            r@ == self.title_text(),
    {
        match self {
            CheckId::NetworkManager => "NetworkManager",
            CheckId::Dnsmasq => "dnsmasq",
            CheckId::WifiAp => "Access point mode",
            CheckId::Uplink => "Internet connection",
            CheckId::Firewall => "Firewall (ufw)",
            CheckId::Country => "Wi-Fi country",
            CheckId::Helper => "System helper",
        }
    }
}

impl Advice {
    pub open spec fn advice_text(self) -> Seq<char> {
        match self {
            Advice::NmInactive => "Start it: systemctl enable --now NetworkManager"@,
            Advice::InstallDnsmasq => "Install it: sudo pacman -S dnsmasq"@,
            Advice::NoWifi => "Connect a Wi-Fi adapter."@,
            Advice::NoAp => "This Wi-Fi adapter cannot be an access point; use one that can."@,
            Advice::UplinkIsWifi =>
                "The internet comes over Wi-Fi: one adapter cannot be a client and an access point at once."@,
            Advice::NoUplink => "Connect to the internet by cable or through a second adapter."@,
            Advice::HelperMissing =>
                "Reinstall the package: without the system helper the hotspot has no firewall."@,
            Advice::CountryUnset => "Set the Wi-Fi country: sudo iw reg set <code>"@,
        }
    }

    /// What to do, as a sentence.
    pub fn text(self) -> (r: &'static str)
        ensures
            r@ == self.advice_text(),
    {
        match self {
            Advice::NmInactive => "Start it: systemctl enable --now NetworkManager",
            Advice::InstallDnsmasq => "Install it: sudo pacman -S dnsmasq",
            Advice::NoWifi => "Connect a Wi-Fi adapter.",
            Advice::NoAp => "This Wi-Fi adapter cannot be an access point; use one that can.",
            Advice::UplinkIsWifi =>
                "The internet comes over Wi-Fi: one adapter cannot be a client and an access point at once.",
            Advice::NoUplink => "Connect to the internet by cable or through a second adapter.",
            Advice::HelperMissing =>
                "Reinstall the package: without the system helper the hotspot has no firewall.",
            Advice::CountryUnset => "Set the Wi-Fi country: sudo iw reg set <code>",
        }
    }
}

pub open spec fn yes_no_text(b: bool) -> Seq<char> {
    if b { "yes"@ } else { "no"@ }
}

fn yes_no_chars(b: bool) -> (r: Vec<char>)
    ensures
        r@ == yes_no_text(b),
{
    if b { lit("yes") } else { lit("no") }
}

impl Detail {
    pub open spec fn detail_text(self) -> Seq<char> {
        match self {
            Detail::Running => "running"@,
            Detail::NotRunning => "not running"@,
            Detail::Installed => "installed"@,
            Detail::NotInstalled => "not installed"@,
            Detail::NoWifi => "no Wi-Fi adapter found"@,
            Detail::NoAp => "the adapter does not support access point mode"@,
            Detail::WifiAp { iface, wpa3, five_ghz } => iface@ + "; WPA3: "@ + yes_no_text(wpa3)
                + "; 5 GHz: "@ + yes_no_text(five_ghz),
            Detail::Iface(i) => i@,
            Detail::NoRoute => "no route to the internet"@,
            Detail::UfwActive => "active"@,
            Detail::UfwInactive => "not active (the hotspot works without it)"@,
            Detail::UfwUnknown => "could not be checked"@,
            Detail::HelperMissing => "not installed"@,
            Detail::Country(c) => c@,
            Detail::CountryUnset => "not set"@,
        }
    }

    /// What the check found, as a line.
    pub fn text(&self) -> (r: String)
        ensures
            r@ == self.detail_text(),
    {
        match self {
            Detail::Running => "running".to_string(),
            Detail::NotRunning => "not running".to_string(),
            Detail::Installed => "installed".to_string(),
            Detail::NotInstalled => "not installed".to_string(),
            Detail::NoWifi => "no Wi-Fi adapter found".to_string(),
            Detail::NoAp => "the adapter does not support access point mode".to_string(),
            Detail::WifiAp { iface, wpa3, five_ghz } => {
                let mut v = str_chars(iface.as_str());
                v.append(&mut lit("; WPA3: "));
                v.append(&mut yes_no_chars(*wpa3));
                v.append(&mut lit("; 5 GHz: "));
                v.append(&mut yes_no_chars(*five_ghz));
                chars_to_string(v.as_slice())
            },
            Detail::Iface(i) => chars_to_string(str_chars(i.as_str()).as_slice()),
            Detail::NoRoute => "no route to the internet".to_string(),
            Detail::UfwActive => "active".to_string(),
            Detail::UfwInactive => "not active (the hotspot works without it)".to_string(),
            Detail::UfwUnknown => "could not be checked".to_string(),
            Detail::HelperMissing => "not installed".to_string(),
            Detail::Country(c) => chars_to_string(str_chars(c.as_str()).as_slice()),
            Detail::CountryUnset => "not set".to_string(),
        }
    }
}

} // verus!
