//! Wi-Fi decisions for the optional network page: how an access point's
//! security is classified, which networks are listed, what a connection
//! request holds, and the page's state machine. Talking to NetworkManager is
//! left to the caller.

use vstd::prelude::*;
use crate::config_model::{random_uuid_text, utf8_len, utf8_len_at_least};
use crate::draft::new_uuid_v4;
use crate::i18n::gettext;
use crate::text::{is_blank, str_eq, to_owned_string, trimmed};

verus! {

/// NetworkManager's device type for Wi-Fi devices.
pub const NM_DEVICE_TYPE_WIFI: u32 = 2;
/// Access point flag: the network requires privacy (some encryption).
pub const AP_FLAGS_PRIVACY: u32 = 0x1;
/// Security flag: pre-shared-key authentication (WPA/WPA2 Personal).
pub const SEC_KEY_MGMT_PSK: u32 = 0x100;
/// Security flag: SAE authentication (WPA3 Personal).
pub const SEC_KEY_MGMT_SAE: u32 = 0x400;

/// How a Wi-Fi network is secured, as far as the installer can connect to it.
#[derive(Debug, Clone, Copy, PartialEq, Eq, Hash, Structural)]
pub enum WifiSecurity {
    Open,
    WpaPersonal,
    Wpa3Personal,
    Unsupported,
}

/// The classification of an access point's flags.
pub open spec fn security_of(flags: u32, wpa: u32, rsn: u32) -> WifiSecurity {
    if flags & AP_FLAGS_PRIVACY == 0 && wpa == 0 && rsn == 0 {
        WifiSecurity::Open
    } else if rsn & SEC_KEY_MGMT_SAE != 0 {
        WifiSecurity::Wpa3Personal
    } else if (wpa | rsn) & SEC_KEY_MGMT_PSK != 0 {
        WifiSecurity::WpaPersonal
    } else {
        WifiSecurity::Unsupported
    }
}

/// Classify an access point from its privacy flags and WPA / RSN security
/// flags: open, WPA3 (SAE), WPA/WPA2 Personal (PSK), or anything else
/// (enterprise, WEP), which the installer does not support.
pub fn classify_security(flags: u32, wpa: u32, rsn: u32) -> (s: WifiSecurity)
    ensures
        s == security_of(flags, wpa, rsn),
{
    if flags & AP_FLAGS_PRIVACY == 0 && wpa == 0 && rsn == 0 {
        WifiSecurity::Open
    } else if rsn & SEC_KEY_MGMT_SAE != 0 {
        WifiSecurity::Wpa3Personal
    } else if (wpa | rsn) & SEC_KEY_MGMT_PSK != 0 {
        WifiSecurity::WpaPersonal
    } else {
        WifiSecurity::Unsupported
    }
}

/// How an access point is classified, from its flags: with no privacy flag
/// and no WPA or RSN flags it is open; SAE in its RSN flags makes it WPA3
/// Personal; otherwise PSK in its WPA or its RSN flags makes it WPA/WPA2
/// Personal; anything else that asks for security is unsupported.
pub proof fn law_security_classification(flags: u32, wpa: u32, rsn: u32)
    ensures
        (flags & AP_FLAGS_PRIVACY == 0 && wpa == 0 && rsn == 0) ==> security_of(flags, wpa, rsn) == WifiSecurity::Open,
        rsn & SEC_KEY_MGMT_SAE != 0 ==> security_of(flags, wpa, rsn) == WifiSecurity::Wpa3Personal,
        (rsn & SEC_KEY_MGMT_SAE == 0 && (rsn & SEC_KEY_MGMT_PSK != 0 || wpa & SEC_KEY_MGMT_PSK != 0))
            ==> security_of(flags, wpa, rsn) == WifiSecurity::WpaPersonal,
        ((flags & AP_FLAGS_PRIVACY != 0 || wpa != 0 || rsn != 0) && rsn & SEC_KEY_MGMT_SAE == 0
            && rsn & SEC_KEY_MGMT_PSK == 0 && wpa & SEC_KEY_MGMT_PSK == 0)
            ==> security_of(flags, wpa, rsn) == WifiSecurity::Unsupported,
{
    assert(rsn & 0x400u32 != 0 ==> rsn != 0) by (bit_vector);
    assert(rsn & 0x100u32 != 0 ==> rsn != 0) by (bit_vector);
    assert(wpa & 0x100u32 != 0 ==> wpa != 0) by (bit_vector);
    assert(((wpa | rsn) & 0x100u32 != 0) == (wpa & 0x100u32 != 0 || rsn & 0x100u32 != 0)) by (bit_vector);
}

/// What a connection profile says of security: an open network's profile has
/// the four basic sections and no security section; a secured network's has a
/// fifth, `802-11-wireless-security`, whose key management is SAE for WPA3
/// Personal and WPA-PSK for WPA/WPA2 Personal (and anything else), with the
/// password as the pre-shared key.
pub proof fn law_profile_key_management(n: WifiNetworkView, password: Seq<char>, uuid: Seq<char>)
    ensures
        n.security == WifiSecurity::Open ==> wifi_profile(n, password, uuid).len() == 4
            && forall|i: int| 0 <= i < 4 ==> (#[trigger] wifi_profile(n, password, uuid)[i]).0 != "802-11-wireless-security"@,
        n.security != WifiSecurity::Open ==> {
            let r = wifi_profile(n, password, uuid);
            &&& r.len() == 5
            &&& r[4].0 == "802-11-wireless-security"@
            &&& r[4].1.len() == 2
            &&& r[4].1[0] == ("key-mgmt"@, SettingValueView::Text(
                if n.security == WifiSecurity::Wpa3Personal { "sae"@ } else { "wpa-psk"@ }))
            &&& r[4].1[1] == ("psk"@, SettingValueView::Text(password))
        },
        n.security == WifiSecurity::WpaPersonal ==> wifi_profile(n, password, uuid)[4].1[0].1 == SettingValueView::Text("wpa-psk"@),
        n.security == WifiSecurity::Wpa3Personal ==> wifi_profile(n, password, uuid)[4].1[0].1 == SettingValueView::Text("sae"@),
{
    if n.security == WifiSecurity::Open {
        reveal_strlit("802-11-wireless-security");
        reveal_strlit("connection");
        reveal_strlit("802-11-wireless");
        reveal_strlit("ipv4");
        reveal_strlit("ipv6");
        let r = wifi_profile(n, password, uuid);
        assert forall|i: int| 0 <= i < 4 implies (#[trigger] r[i]).0 != "802-11-wireless-security"@ by {
            assert("802-11-wireless-security"@.len() == 24);
            assert(r[i].0.len() < 24);
        }
    }
}

/// Whether a device whose reported type is `t` is a Wi-Fi device; a type that
/// could not be read counts as 0, which is no Wi-Fi device.
pub open spec fn is_wifi_type(t: Option<u32>) -> bool {
    t.unwrap_or(0u32) == NM_DEVICE_TYPE_WIFI
}

/// The positions, in listing order, of the devices whose type is Wi-Fi among
/// the first `k` of `types`.
pub open spec fn wifi_positions_upto(types: Seq<Option<u32>>, k: int) -> Seq<usize>
    decreases k,
{
    if k <= 0 {
        Seq::empty()
    } else {
        let prev = wifi_positions_upto(types, k - 1);
        if is_wifi_type(types[k - 1]) {
            prev.push((k - 1) as usize)
        } else {
            prev
        }
    }
}

proof fn lemma_wifi_positions(types: Seq<Option<u32>>, k: int)
    requires
        0 <= k <= types.len(),
        types.len() <= usize::MAX,
    ensures
        forall|j: int| 0 <= j < wifi_positions_upto(types, k).len() ==>
            #[trigger] wifi_positions_upto(types, k)[j] < k
            && is_wifi_type(types[wifi_positions_upto(types, k)[j] as int]),
        (wifi_positions_upto(types, k).len() > 0) <==> (exists|i: int| 0 <= i < k && #[trigger] is_wifi_type(types[i])),
    decreases k,
{
    if k > 0 {
        lemma_wifi_positions(types, k - 1);
        let prev = wifi_positions_upto(types, k - 1);
        if is_wifi_type(types[k - 1]) {
            assert(wifi_positions_upto(types, k) == prev.push((k - 1) as usize));
            assert forall|j: int| 0 <= j < prev.len() + 1 implies
                #[trigger] prev.push((k - 1) as usize)[j] < k
                && is_wifi_type(types[prev.push((k - 1) as usize)[j] as int]) by {
                if j < prev.len() {
                    assert(prev.push((k - 1) as usize)[j] == prev[j]);
                }
            }
        }
        if exists|i: int| 0 <= i < k && #[trigger] is_wifi_type(types[i]) {
            let i = choose|i: int| 0 <= i < k && #[trigger] is_wifi_type(types[i]);
            if i < k - 1 {
                assert(wifi_positions_upto(types, k - 1).len() > 0);
            }
        }
    }
}

/// Pick the Wi-Fi devices out of NetworkManager's device listing, given the
/// type each listed device reported (`None` where it could not be read): the
/// positions of those whose type is Wi-Fi, in listing order.
pub fn wifi_device_positions(device_types: &Vec<Option<u32>>) -> (r: Vec<usize>)
    ensures
        r@ == wifi_positions_upto(device_types@, device_types@.len() as int),
        forall|j: int| 0 <= j < r@.len() ==>
            #[trigger] r@[j] < device_types@.len() && is_wifi_type(device_types@[r@[j] as int]),
        (r@.len() > 0) <==> (exists|i: int|
            0 <= i < device_types@.len() && #[trigger] is_wifi_type(device_types@[i])),
{
    let mut r: Vec<usize> = Vec::new();
    let mut i: usize = 0;
    while i < device_types.len()
        invariant
            i <= device_types@.len(),
            r@ == wifi_positions_upto(device_types@, i as int),
        decreases device_types@.len() - i,
    {
        let t: Option<u32> = device_types[i];
        let kind: u32 = match t {
            Some(v) => v,
            None => 0,
        };
        if kind == NM_DEVICE_TYPE_WIFI {
            r.push(i);
        }
        i = i + 1;
    }
    proof {
        lemma_wifi_positions(device_types@, device_types@.len() as int);
    }
    r
}

/// Whether the machine has a Wi-Fi device, from NetworkManager's device
/// listing (`None` where NetworkManager could not be reached or the devices
/// could not be listed): it does when the listing came back and at least one
/// listed device reported the Wi-Fi type.
pub fn has_wifi_device(device_types: Option<Vec<Option<u32>>>) -> (r: bool)
    ensures
        r == (device_types matches Some(ts)
            && exists|i: int| 0 <= i < ts@.len() && #[trigger] is_wifi_type(ts@[i])),
{
    match device_types {
        None => false,
        Some(ts) => {
            let found = wifi_device_positions(&ts);
            found.len() > 0
        },
    }
}

/// A visible Wi-Fi network. `device` and `access_point` are NetworkManager
/// object paths.
#[derive(Debug, Clone, PartialEq, Eq)]
pub struct WifiNetwork {
    pub ssid: String,
    pub strength: u8,
    pub security: WifiSecurity,
    pub device: String,
    pub access_point: String,
    pub active: bool,
}

/// Mathematical model of a [`WifiNetwork`].
pub struct WifiNetworkView {
    pub ssid: Seq<char>,
    pub strength: u8,
    pub security: WifiSecurity,
    pub device: Seq<char>,
    pub access_point: Seq<char>,
    pub active: bool,
}

impl View for WifiNetwork {
    type V = WifiNetworkView;

    open spec fn view(&self) -> WifiNetworkView {
        WifiNetworkView {
            ssid: self.ssid@,
            strength: self.strength,
            security: self.security,
            device: self.device@,
            access_point: self.access_point@,
            active: self.active,
        }
    }
}

/// The models of a list of networks.
pub open spec fn networks_view(v: Seq<WifiNetwork>) -> Seq<WifiNetworkView> {
    v.map_values(|n: WifiNetwork| n@)
}

impl WifiNetwork {
    /// A copy of this network.
    pub fn duplicate(&self) -> (r: WifiNetwork)
        ensures
            r@ == self@,
    {
        WifiNetwork {
            ssid: to_owned_string(self.ssid.as_str()),
            strength: self.strength,
            security: self.security,
            device: to_owned_string(self.device.as_str()),
            access_point: to_owned_string(self.access_point.as_str()),
            active: self.active,
        }
    }
}

/// The network an access point describes: hidden networks (a blank SSID)
/// are skipped, the rest are classified by their flags.
pub fn network_from_access_point(
    ssid: String,
    strength: u8,
    flags: u32,
    wpa: u32,
    rsn: u32,
    device: String,
    access_point: String,
    active: bool,
) -> (r: Option<WifiNetwork>)
    ensures
        trimmed(ssid@).len() == 0 ==> r is None,
        trimmed(ssid@).len() != 0 ==> (r matches Some(n) && n@ == (WifiNetworkView {
            ssid: ssid@,
            strength: strength,
            security: security_of(flags, wpa, rsn),
            device: device@,
            access_point: access_point@,
            active: active,
        })),
{
    if is_blank(ssid.as_str()) {
        return None;
    }
    let security = classify_security(flags, wpa, rsn);
    Some(WifiNetwork { ssid, strength, security, device, access_point, active })
}

/// `a` is listed before `b`: the active network first, then stronger signals.
pub open spec fn listed_before(a: WifiNetworkView, b: WifiNetworkView) -> bool {
    (a.active && !b.active) || (a.active == b.active && a.strength > b.strength)
}

/// `s` with `x` placed after the last element it does not outrank (one step
/// of a stable insertion sort).
pub open spec fn insert_ranked(s: Seq<WifiNetworkView>, x: WifiNetworkView) -> Seq<WifiNetworkView>
    decreases s.len(),
{
    if s.len() == 0 {
        seq![x]
    } else if !listed_before(x, s.last()) {
        s.push(x)
    } else {
        insert_ranked(s.drop_last(), x).push(s.last())
    }
}

/// `s` stably sorted: active first, then by decreasing strength.
pub open spec fn sort_ranked(s: Seq<WifiNetworkView>) -> Seq<WifiNetworkView>
    decreases s.len(),
{
    if s.len() == 0 {
        s
    } else {
        insert_ranked(sort_ranked(s.drop_last()), s.last())
    }
}

/// Two entries advertise the same network: same SSID and same security.
pub open spec fn same_network(a: WifiNetworkView, b: WifiNetworkView) -> bool {
    a.ssid == b.ssid && a.security == b.security
}

/// The first `k` entries of `s`, keeping only the first entry of each network.
pub open spec fn first_of_each(s: Seq<WifiNetworkView>, k: int) -> Seq<WifiNetworkView>
    decreases k,
{
    if k <= 0 {
        Seq::empty()
    } else {
        let prev = first_of_each(s, k - 1);
        if exists|j: int| 0 <= j < prev.len() && same_network(#[trigger] prev[j], s[k - 1]) {
            prev
        } else {
            prev.push(s[k - 1])
        }
    }
}

/// The list the page shows: ranked, one entry per network (its best one).
pub open spec fn strongest_of(s: Seq<WifiNetworkView>) -> Seq<WifiNetworkView> {
    let ranked = sort_ranked(s);
    first_of_each(ranked, ranked.len() as int)
}

proof fn lemma_insert_ranked_split(s: Seq<WifiNetworkView>, x: WifiNetworkView, p: int)
    requires
        0 <= p <= s.len(),
        forall|k: int| p <= k < s.len() ==> listed_before(x, #[trigger] s[k]),
        p == 0 || !listed_before(x, s[p - 1]),
    ensures
        insert_ranked(s, x) == s.subrange(0, p).push(x) + s.subrange(p, s.len() as int),
    decreases s.len(),
{
    if s.len() == 0 {
        assert(s.subrange(0, p).push(x) + s.subrange(p, s.len() as int) =~= seq![x]);
    } else if p == s.len() {
        assert(s.subrange(0, p) =~= s);
        assert(s.subrange(0, p).push(x) + s.subrange(p, s.len() as int) =~= s.push(x));
    } else {
        let t = s.drop_last();
        lemma_insert_ranked_split(t, x, p);
        assert(t.subrange(0, p) =~= s.subrange(0, p));
        assert(s.subrange(0, p).push(x) + s.subrange(p, s.len() as int) =~= (t.subrange(0, p).push(x)
            + t.subrange(p, t.len() as int)).push(s.last()));
    }
}

fn ranks_before(a: &WifiNetwork, b: &WifiNetwork) -> (r: bool)
    ensures
        r == listed_before(a@, b@),
{
    (a.active && !b.active) || (a.active == b.active && a.strength > b.strength)
}

fn insert_network(v: &mut Vec<WifiNetwork>, x: WifiNetwork)
    ensures
        networks_view(final(v)@) == insert_ranked(networks_view(old(v)@), x@),
{
    let ghost s = networks_view(v@);
    let mut p: usize = v.len();
    while p > 0 && ranks_before(&x, &v[p - 1])
        invariant
            s == networks_view(v@),
            s.len() == v@.len(),
            p <= v@.len(),
            forall|k: int| p <= k < s.len() ==> listed_before(x@, #[trigger] s[k]),
        decreases p,
    {
        assert(s[p - 1] == v@[p - 1]@);
        p = p - 1;
    }
    proof {
        if p > 0 {
            assert(s[p - 1] == v@[p - 1]@);
        }
        lemma_insert_ranked_split(s, x@, p as int);
    }
    v.insert(p, x);
    assert(networks_view(v@) =~= s.subrange(0, p as int).push(x@) + s.subrange(p as int, s.len() as int));
}

/// The networks to list: ordered active first, then by decreasing signal
/// strength (ties keep their scan order), with one entry per SSID and
/// security, the best-ranked one.
pub fn strongest_networks(networks: Vec<WifiNetwork>) -> (r: Vec<WifiNetwork>)
    ensures
        networks_view(r@) == strongest_of(networks_view(networks@)),
{
    let ghost s = networks_view(networks@);
    let n = networks.len();
    let mut ranked: Vec<WifiNetwork> = Vec::new();
    let mut i: usize = 0;
    assert(s.subrange(0, 0) =~= Seq::<WifiNetworkView>::empty());
    while i < n
        invariant
            s == networks_view(networks@),
            s.len() == networks@.len(),
            n == networks@.len(),
            i <= n,
            networks_view(ranked@) == sort_ranked(s.subrange(0, i as int)),
        decreases n - i,
    {
        assert(s.subrange(0, i + 1).drop_last() =~= s.subrange(0, i as int));
        assert(s.subrange(0, i + 1).last() == networks@[i as int]@);
        insert_network(&mut ranked, networks[i].duplicate());
        i = i + 1;
    }
    assert(s.subrange(0, n as int) =~= s);
    let ghost rv = networks_view(ranked@);
    let mut result: Vec<WifiNetwork> = Vec::new();
    let mut k: usize = 0;
    while k < ranked.len()
        invariant
            rv == networks_view(ranked@),
            rv.len() == ranked@.len(),
            k <= ranked@.len(),
            networks_view(result@) == first_of_each(rv, k as int),
        decreases ranked@.len() - k,
    {
        let ghost prev = networks_view(result@);
        let mut seen = false;
        let mut j: usize = 0;
        while j < result.len()
            invariant
                prev == networks_view(result@),
                prev.len() == result@.len(),
                rv == networks_view(ranked@),
                k < ranked@.len(),
                j <= result@.len(),
                seen == exists|m: int| 0 <= m < j && same_network(#[trigger] prev[m], rv[k as int]),
            decreases result@.len() - j,
        {
            assert(prev[j as int] == result@[j as int]@);
            assert(rv[k as int] == ranked@[k as int]@);
            if str_eq(result[j].ssid.as_str(), ranked[k].ssid.as_str()) && result[j].security == ranked[k].security {
                seen = true;
            }
            j = j + 1;
        }
        if !seen {
            assert(rv[k as int] == ranked@[k as int]@);
            result.push(ranked[k].duplicate());
            assert(networks_view(result@) =~= prev.push(rv[k as int]));
        }
        k = k + 1;
    }
    result
}

/// Why a connection attempt is refused before anything is sent.
pub open spec fn credentials_error(security: WifiSecurity, password: Seq<char>) -> Option<Seq<char>> {
    if security == WifiSecurity::Unsupported {
        Some("this network uses an unsupported enterprise or legacy security mode"@)
    } else if security != WifiSecurity::Open && utf8_len(password) < 8 {
        Some("the Wi-Fi password must contain at least 8 characters"@)
    } else {
        None
    }
}

/// Refuses a connection the installer cannot make: an unsupported security
/// mode, or a secured network with a password shorter than 8 bytes.
pub fn check_wifi_credentials(network: &WifiNetwork, password: &str) -> (r: Result<(), String>)
    ensures
        match credentials_error(network.security, password@) {
            Some(e) => r matches Err(m) && m@ == e,
            None => r is Ok,
        },
{
    if network.security == WifiSecurity::Unsupported {
        return Err(to_owned_string("this network uses an unsupported enterprise or legacy security mode"));
    }
    if network.security != WifiSecurity::Open && !utf8_len_at_least(password, 8) {
        return Err(to_owned_string("the Wi-Fi password must contain at least 8 characters"));
    }
    Ok(())
}

/// A value in a NetworkManager connection setting.
#[derive(Debug, Clone, PartialEq, Eq)]
pub enum SettingValue {
    Text(String),
    Flag(bool),
    /// The UTF-8 bytes of the text, sent as a byte array.
    Bytes(String),
}

/// Mathematical model of a [`SettingValue`].
pub enum SettingValueView {
    Text(Seq<char>),
    Flag(bool),
    Bytes(Seq<char>),
}

impl View for SettingValue {
    type V = SettingValueView;

    open spec fn view(&self) -> SettingValueView {
        match self {
            SettingValue::Text(t) => SettingValueView::Text(t@),
            SettingValue::Flag(b) => SettingValueView::Flag(*b),
            SettingValue::Bytes(t) => SettingValueView::Bytes(t@),
        }
    }
}

/// One named section of a connection profile, with its keys and values.
pub type SettingSection = (String, Vec<(String, SettingValue)>);

/// The key management NetworkManager needs for a secured network.
pub open spec fn key_mgmt_of(security: WifiSecurity) -> Seq<char> {
    if security == WifiSecurity::Wpa3Personal { "sae"@ } else { "wpa-psk"@ }
}

/// The model of one section.
pub open spec fn section_view(s: (String, Vec<(String, SettingValue)>)) -> (Seq<char>, Seq<(Seq<char>, SettingValueView)>) {
    (s.0@, s.1@.map_values(|e: (String, SettingValue)| (e.0@, e.1@)))
}

/// The connection profile for joining `n` with `password`, under the fresh
/// connection id `uuid`: an auto-connecting Wi-Fi profile in infrastructure
/// mode with automatic IPv4 and IPv6, plus a security section with the key
/// management and password unless the network is open.
pub open spec fn wifi_profile(n: WifiNetworkView, password: Seq<char>, uuid: Seq<char>) -> Seq<(Seq<char>, Seq<(Seq<char>, SettingValueView)>)> {
    let base = seq![
        ("connection"@, seq![
            ("id"@, SettingValueView::Text(n.ssid)),
            ("uuid"@, SettingValueView::Text(uuid)),
            ("type"@, SettingValueView::Text("802-11-wireless"@)),
            ("autoconnect"@, SettingValueView::Flag(true)),
        ]),
        ("802-11-wireless"@, seq![
            ("ssid"@, SettingValueView::Bytes(n.ssid)),
            ("mode"@, SettingValueView::Text("infrastructure"@)),
        ]),
        ("ipv4"@, seq![("method"@, SettingValueView::Text("auto"@))]),
        ("ipv6"@, seq![("method"@, SettingValueView::Text("auto"@))]),
    ];
    if n.security != WifiSecurity::Open {
        base.push(("802-11-wireless-security"@, seq![
            ("key-mgmt"@, SettingValueView::Text(key_mgmt_of(n.security))),
            ("psk"@, SettingValueView::Text(password)),
        ]))
    } else {
        base
    }
}

fn text(key: &str, value: &str) -> (e: (String, SettingValue))
    ensures
        e.0@ == key@,
        e.1@ == SettingValueView::Text(value@),
{
    (to_owned_string(key), SettingValue::Text(to_owned_string(value)))
}

/// The connection profile for `network`, `password` and connection id `uuid`.
pub fn wifi_settings_with_id(network: &WifiNetwork, password: &str, uuid: &str) -> (r: Vec<SettingSection>)
    ensures
        r@.map_values(|s: SettingSection| section_view(s)) == wifi_profile(network@, password@, uuid@),
{
    let mut connection: Vec<(String, SettingValue)> = Vec::new();
    connection.push(text("id", network.ssid.as_str()));
    connection.push(text("uuid", uuid));
    connection.push(text("type", "802-11-wireless"));
    connection.push((to_owned_string("autoconnect"), SettingValue::Flag(true)));
    let mut wireless: Vec<(String, SettingValue)> = Vec::new();
    wireless.push((to_owned_string("ssid"), SettingValue::Bytes(to_owned_string(network.ssid.as_str()))));
    wireless.push(text("mode", "infrastructure"));
    let mut ipv4: Vec<(String, SettingValue)> = Vec::new();
    ipv4.push(text("method", "auto"));
    let mut ipv6: Vec<(String, SettingValue)> = Vec::new();
    ipv6.push(text("method", "auto"));
    assert(connection@.map_values(|e: (String, SettingValue)| (e.0@, e.1@)) =~= seq![
        ("id"@, SettingValueView::Text(network.ssid@)),
        ("uuid"@, SettingValueView::Text(uuid@)),
        ("type"@, SettingValueView::Text("802-11-wireless"@)),
        ("autoconnect"@, SettingValueView::Flag(true)),
    ]);
    assert(wireless@.map_values(|e: (String, SettingValue)| (e.0@, e.1@)) =~= seq![
        ("ssid"@, SettingValueView::Bytes(network.ssid@)),
        ("mode"@, SettingValueView::Text("infrastructure"@)),
    ]);
    assert(ipv4@.map_values(|e: (String, SettingValue)| (e.0@, e.1@)) =~= seq![("method"@, SettingValueView::Text("auto"@))]);
    assert(ipv6@.map_values(|e: (String, SettingValue)| (e.0@, e.1@)) =~= seq![("method"@, SettingValueView::Text("auto"@))]);
    let mut r: Vec<SettingSection> = Vec::new();
    r.push((to_owned_string("connection"), connection));
    r.push((to_owned_string("802-11-wireless"), wireless));
    r.push((to_owned_string("ipv4"), ipv4));
    r.push((to_owned_string("ipv6"), ipv6));
    let ghost base = r@.map_values(|s: SettingSection| section_view(s));
    assert(base =~= seq![
        ("connection"@, seq![
            ("id"@, SettingValueView::Text(network.ssid@)),
            ("uuid"@, SettingValueView::Text(uuid@)),
            ("type"@, SettingValueView::Text("802-11-wireless"@)),
            ("autoconnect"@, SettingValueView::Flag(true)),
        ]),
        ("802-11-wireless"@, seq![
            ("ssid"@, SettingValueView::Bytes(network.ssid@)),
            ("mode"@, SettingValueView::Text("infrastructure"@)),
        ]),
        ("ipv4"@, seq![("method"@, SettingValueView::Text("auto"@))]),
        ("ipv6"@, seq![("method"@, SettingValueView::Text("auto"@))]),
    ]);
    if network.security != WifiSecurity::Open {
        let key_mgmt = if network.security == WifiSecurity::Wpa3Personal { "sae" } else { "wpa-psk" };
        let mut security: Vec<(String, SettingValue)> = Vec::new();
        security.push(text("key-mgmt", key_mgmt));
        security.push(text("psk", password));
        assert(security@.map_values(|e: (String, SettingValue)| (e.0@, e.1@)) =~= seq![
            ("key-mgmt"@, SettingValueView::Text(key_mgmt_of(network.security))),
            ("psk"@, SettingValueView::Text(password@)),
        ]);
        r.push((to_owned_string("802-11-wireless-security"), security));
        assert(r@.map_values(|s: SettingSection| section_view(s)) =~= base.push(("802-11-wireless-security"@, seq![
            ("key-mgmt"@, SettingValueView::Text(key_mgmt_of(network.security))),
            ("psk"@, SettingValueView::Text(password@)),
        ])));
    }
    assert(r@.map_values(|s: SettingSection| section_view(s)) =~= wifi_profile(network@, password@, uuid@));
    r
}

/// The connection profile for joining `network` with `password`, under a
/// fresh random connection id.
pub fn wifi_settings(network: &WifiNetwork, password: &str) -> (r: Vec<SettingSection>)
    ensures
        exists|uuid: Seq<char>| random_uuid_text(uuid)
            && r@.map_values(|s: SettingSection| section_view(s)) == #[trigger] wifi_profile(network@, password@, uuid),
{
    let uuid = new_uuid_v4();
    wifi_settings_with_id(network, password, uuid.as_str())
}

/// The activation options: the profile lives in memory only.
pub fn activation_options() -> (r: Vec<(String, SettingValue)>)
    ensures
        r@.map_values(|e: (String, SettingValue)| (e.0@, e.1@)) == seq![("persist"@, SettingValueView::Text("memory"@))],
{
    let mut r: Vec<(String, SettingValue)> = Vec::new();
    r.push(text("persist", "memory"));
    assert(r@.map_values(|e: (String, SettingValue)| (e.0@, e.1@)) =~= seq![("persist"@, SettingValueView::Text("memory"@))]);
    r
}

/// The signal-strength icon for a strength in percent.
pub open spec fn signal_icon_of(strength: u8) -> Seq<char> {
    if strength >= 75 {
        "network-wireless-signal-excellent-symbolic"@
    } else if strength >= 50 {
        "network-wireless-signal-good-symbolic"@
    } else if strength >= 25 {
        "network-wireless-signal-ok-symbolic"@
    } else {
        "network-wireless-signal-weak-symbolic"@
    }
}

/// The icon name for a signal strength.
pub fn signal_icon(strength: u8) -> (icon: &'static str)
    ensures
        icon@ == signal_icon_of(strength),
{
    if strength >= 75 {
        "network-wireless-signal-excellent-symbolic"
    } else if strength >= 50 {
        "network-wireless-signal-good-symbolic"
    } else if strength >= 25 {
        "network-wireless-signal-ok-symbolic"
    } else {
        "network-wireless-signal-weak-symbolic"
    }
}

/// The English description (the gettext msgid) of a security mode.
pub open spec fn security_text(security: WifiSecurity) -> Seq<char> {
    match security {
        WifiSecurity::Open => "Open network"@,
        WifiSecurity::WpaPersonal => "WPA/WPA2 Personal"@,
        WifiSecurity::Wpa3Personal => "WPA3 Personal"@,
        WifiSecurity::Unsupported => "Enterprise or legacy security is not supported here"@,
    }
}

/// The untranslated description (the gettext msgid) of a security mode.
pub fn security_msgid(security: WifiSecurity) -> (s: &'static str)
    ensures
        s@ == security_text(security),
{
    match security {
        WifiSecurity::Open => "Open network",
        WifiSecurity::WpaPersonal => "WPA/WPA2 Personal",
        WifiSecurity::Wpa3Personal => "WPA3 Personal",
        WifiSecurity::Unsupported => "Enterprise or legacy security is not supported here",
    }
}

/// The translated description of a security mode: the current locale's
/// translation of `security_msgid(security)`.
pub fn security_label(security: WifiSecurity) -> String {
    proof {
        reveal_strlit("Open network");
        reveal_strlit("WPA/WPA2 Personal");
        reveal_strlit("WPA3 Personal");
        reveal_strlit("Enterprise or legacy security is not supported here");
    }
    gettext(security_msgid(security))
}

/// The network page's state: the listed networks, whether a scan runs,
/// which entry is being connected, and the last error.
pub struct NetworkPageState {
    pub networks: Vec<WifiNetwork>,
    pub loading: bool,
    pub connecting: Option<usize>,
    pub error: Option<String>,
}

/// What happened on the network page.
pub enum NetworkEvent {
    /// The user asked for a new scan.
    Refresh,
    /// A scan finished.
    Loaded(Result<Vec<WifiNetwork>, String>),
    /// The user picked the network at this index.
    Select(usize),
    /// The user confirmed a connection, with the password typed (empty for open networks).
    Connect { index: usize, password: String },
    /// A connection attempt finished.
    Connected(Result<(), String>),
}

/// What the caller must do next.
pub enum NetworkAction {
    Nothing,
    /// Scan for networks in the background and report `Loaded`.
    StartScan,
    /// Ask for the password of the network at `index`, called `ssid`.
    AskPassword { index: usize, ssid: String },
    /// Connect to `network` in the background and report `Connected`.
    StartConnect { network: WifiNetwork, password: String },
}

/// What the row of a listed network ends with.
#[derive(Debug, Clone, Copy, PartialEq, Eq, Structural)]
pub enum RowTrailer {
    /// The network is the active one.
    Connected,
    /// A connection to it is under way.
    Spinner,
    /// A connect button, enabled or not.
    ConnectButton(bool),
}

impl NetworkPageState {
    /// The page when it opens: no networks yet, a scan under way.
    pub fn new() -> (s: NetworkPageState)
        ensures
            s.networks@.len() == 0,
            s.loading,
            s.connecting is None,
            s.error is None,
    {
        NetworkPageState { networks: Vec::new(), loading: true, connecting: None, error: None }
    }

    fn start_connect(&mut self, index: usize, password: String) -> (a: NetworkAction)
        requires
            index < old(self).networks@.len(),
        ensures
            final(self).networks@ == old(self).networks@,
            final(self).loading == old(self).loading,
            final(self).connecting == Some(index),
            final(self).error is None,
            a matches NetworkAction::StartConnect { network, password: p }
                && network@ == old(self).networks@[index as int]@ && p@ == password@,
    {
        let network = self.networks[index].duplicate();
        self.connecting = Some(index);
        self.error = None;
        NetworkAction::StartConnect { network, password }
    }

    /// Fold an event into the page state and say what to do next:
    /// a refresh starts a scan; a finished scan replaces the list (or records
    /// its error); picking an open network connects at once, a secured one
    /// asks for its password, an unsupported one records why it cannot be
    /// used; a confirmed connection starts it; a finished connection rescans
    /// on success and records the error otherwise. Indexes outside the list
    /// are ignored.
    pub fn update(&mut self, event: NetworkEvent) -> (a: NetworkAction)
        ensures
            match event {
                NetworkEvent::Refresh => final(self).loading && final(self).error is None
                    && final(self).networks@ == old(self).networks@
                    && final(self).connecting == old(self).connecting
                    && a is StartScan,
                NetworkEvent::Loaded(Ok(list)) => !final(self).loading && final(self).networks@ == list@
                    && final(self).error == old(self).error
                    && final(self).connecting == old(self).connecting
                    && a is Nothing,
                NetworkEvent::Loaded(Err(e)) => !final(self).loading && final(self).networks@ == old(self).networks@
                    && final(self).error == Some(e)
                    && final(self).connecting == old(self).connecting
                    && a is Nothing,
                NetworkEvent::Select(index) => if index >= old(self).networks@.len() {
                    *final(self) == *old(self) && a is Nothing
                } else {
                    let n = old(self).networks@[index as int];
                    &&& final(self).networks@ == old(self).networks@
                    &&& final(self).loading == old(self).loading
                    &&& (n.security == WifiSecurity::Open ==> final(self).connecting == Some(index)
                        && final(self).error is None
                        && (a matches NetworkAction::StartConnect { network, password }
                            && network@ == n@ && password@.len() == 0))
                    &&& ((n.security == WifiSecurity::WpaPersonal || n.security == WifiSecurity::Wpa3Personal)
                        ==> final(self).connecting == old(self).connecting
                        && final(self).error == old(self).error
                        && (a matches NetworkAction::AskPassword { index: i, ssid } && i == index && ssid@ == n.ssid@))
                    &&& (n.security == WifiSecurity::Unsupported ==> final(self).connecting == old(self).connecting
                        && final(self).error is Some && a is Nothing)
                },
                NetworkEvent::Connect { index, password } => if index >= old(self).networks@.len() {
                    *final(self) == *old(self) && a is Nothing
                } else {
                    &&& final(self).networks@ == old(self).networks@
                    &&& final(self).loading == old(self).loading
                    &&& final(self).connecting == Some(index)
                    &&& final(self).error is None
                    &&& (a matches NetworkAction::StartConnect { network, password: p }
                        && network@ == old(self).networks@[index as int]@ && p@ == password@)
                },
                NetworkEvent::Connected(Ok(())) => final(self).connecting is None && final(self).loading
                    && final(self).networks@ == old(self).networks@
                    && final(self).error == old(self).error
                    && a is StartScan,
                NetworkEvent::Connected(Err(e)) => final(self).connecting is None
                    && final(self).loading == old(self).loading
                    && final(self).networks@ == old(self).networks@
                    && final(self).error == Some(e)
                    && a is Nothing,
            },
    {
        match event {
            NetworkEvent::Refresh => {
                self.loading = true;
                self.error = None;
                NetworkAction::StartScan
            },
            NetworkEvent::Loaded(result) => {
                self.loading = false;
                match result {
                    Ok(networks) => self.networks = networks,
                    Err(error) => self.error = Some(error),
                }
                NetworkAction::Nothing
            },
            NetworkEvent::Select(index) => {
                if index >= self.networks.len() {
                    return NetworkAction::Nothing;
                }
                match self.networks[index].security {
                    WifiSecurity::Open => self.start_connect(index, String::new()),
                    WifiSecurity::WpaPersonal | WifiSecurity::Wpa3Personal => {
                        NetworkAction::AskPassword { index, ssid: to_owned_string(self.networks[index].ssid.as_str()) }
                    },
                    WifiSecurity::Unsupported => {
                        self.error = Some(security_label(WifiSecurity::Unsupported));
                        NetworkAction::Nothing
                    },
                }
            },
            NetworkEvent::Connect { index, password } => {
                if index >= self.networks.len() {
                    return NetworkAction::Nothing;
                }
                self.start_connect(index, password)
            },
            NetworkEvent::Connected(result) => {
                self.connecting = None;
                match result {
                    Ok(()) => {
                        self.loading = true;
                        NetworkAction::StartScan
                    },
                    Err(error) => {
                        self.error = Some(error);
                        NetworkAction::Nothing
                    },
                }
            },
        }
    }

    /// How the row of the network at `index` ends.
    pub fn row_trailer(&self, index: usize) -> (t: RowTrailer)
        requires
            index < self.networks@.len(),
        ensures
            t == (if self.networks@[index as int].active {
                RowTrailer::Connected
            } else if self.connecting == Some(index) {
                RowTrailer::Spinner
            } else {
                RowTrailer::ConnectButton(self.networks@[index as int].security != WifiSecurity::Unsupported && self.connecting is None)
            }),
    {
        if self.networks[index].active {
            RowTrailer::Connected
        } else if self.connecting == Some(index) {
            RowTrailer::Spinner
        } else {
            RowTrailer::ConnectButton(self.networks[index].security != WifiSecurity::Unsupported && self.connecting.is_none())
        }
    }

    /// Whether a new scan may be asked for: not while scanning or connecting.
    pub fn can_refresh(&self) -> (r: bool)
        ensures
            r == (!self.loading && self.connecting is None),
    {
        !self.loading && self.connecting.is_none()
    }
}

/// The listed networks never repeat a network, and a network's entry is its
/// best-ranked one.
pub proof fn law_one_entry_per_network(s: Seq<WifiNetworkView>, k: int)
    requires
        0 <= k <= s.len(),
    ensures
        forall|i: int, j: int| 0 <= i < j < first_of_each(s, k).len()
            ==> !same_network(#[trigger] first_of_each(s, k)[i], #[trigger] first_of_each(s, k)[j]),
        forall|i: int| 0 <= i < k ==> exists|j: int| 0 <= j < first_of_each(s, k).len()
            && same_network(#[trigger] first_of_each(s, k)[j], #[trigger] s[i]),
    decreases k,
{
    if k > 0 {
        law_one_entry_per_network(s, k - 1);
        let prev = first_of_each(s, k - 1);
        let r = first_of_each(s, k);
        if exists|j: int| 0 <= j < prev.len() && same_network(#[trigger] prev[j], s[k - 1]) {
            assert(r == prev);
            assert forall|i: int| 0 <= i < k implies exists|j: int| 0 <= j < r.len() && same_network(#[trigger] r[j], #[trigger] s[i]) by {
                if i == k - 1 {
                    let w = choose|j: int| 0 <= j < prev.len() && same_network(#[trigger] prev[j], s[k - 1]);
                    assert(same_network(r[w], s[i]));
                } else {
                    let w = choose|j: int| 0 <= j < prev.len() && same_network(#[trigger] prev[j], #[trigger] s[i]);
                    assert(same_network(r[w], s[i]));
                }
            }
        } else {
            assert(r == prev.push(s[k - 1]));
            assert forall|i: int, j: int| 0 <= i < j < r.len() implies !same_network(#[trigger] r[i], #[trigger] r[j]) by {
                if j == prev.len() {
                    assert(r[i] == prev[i]);
                    assert(r[j] == s[k - 1]);
                } else {
                    assert(r[i] == prev[i]);
                    assert(r[j] == prev[j]);
                }
            }
            assert forall|i: int| 0 <= i < k implies exists|j: int| 0 <= j < r.len() && same_network(#[trigger] r[j], #[trigger] s[i]) by {
                if i == k - 1 {
                    assert(same_network(r[prev.len() as int], s[i]));
                } else {
                    let w = choose|j: int| 0 <= j < prev.len() && same_network(#[trigger] prev[j], #[trigger] s[i]);
                    assert(r[w] == prev[w]);
                    assert(same_network(r[w], s[i]));
                }
            }
        }
    }
}

} // verus!
