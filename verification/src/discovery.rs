//! Discovery of devices: options, results and errors.

use crate::addr::Ipv4Addr;
use crate::text;
use crate::time::Duration;
use crate::time::NANOS_PER_SEC;
use crate::xml;
use vstd::prelude::*;

verus! {

/// Default timeout for a WS-Discovery probe, in seconds
pub const DEFAULT_DISCOVERY_TIMEOUT: u64 = 5;

/// The bits of the WS-Discovery multicast address, 239.255.255.250
pub const WS_DISCOVERY_MULTICAST_ADDR: u32 = 0xEFFF_FFFA;

/// WS-Discovery port
pub const WS_DISCOVERY_PORT: u16 = 3702;

/// Maximum number of devices to return from discovery
pub const MAX_DISCOVERY_RESULTS: usize = 100;

/// Timeout of a discovery over the common subnets, in seconds
pub const EXTENDED_DISCOVERY_TIMEOUT: u64 = 8;

/// Timeout of a discovery on one subnet, in seconds
pub const SUBNET_DISCOVERY_TIMEOUT: u64 = 6;

/// How many routers a multicast probe passes by default
pub const DEFAULT_MULTICAST_TTL: u32 = 2;

/// How many routers a multicast probe passes where other subnets are probed as well
pub const SUBNET_MULTICAST_TTL: u32 = 3;

// ---------------------------------------------------------------------------------------------
// Results
// ---------------------------------------------------------------------------------------------

/// Results from a WS-Discovery scan
#[derive(Debug, Clone)]
pub struct DiscoveryResults {
    /// Discovered devices
    pub devices: Vec<DiscoveredDevice>,
    /// Duration of the discovery scan
    pub scan_duration: Duration,
    /// Non-fatal errors encountered during discovery
    pub errors: Vec<String>,
    /// Number of probe responses received (including duplicates/invalid)
    pub responses_received: usize,
}

/// A device discovered via WS-Discovery
#[derive(Debug, Clone)]
pub struct DiscoveredDevice {
    /// Unique device identifier
    pub uuid: String,
    /// Device name (often generic like "IPCamera")
    pub name: String,
    /// Manufacturer name extracted from device response
    pub manufacturer: String,
    /// Device model extracted from hardware info
    pub model: String,
    /// IP address of the device
    pub ip_address: Ipv4Addr,
    /// MAC address if available
    pub mac_address: Option<String>,
    /// ONVIF device service URL
    pub device_service_url: String,
    /// Hardware information string
    pub hardware_info: String,
    /// Device location if specified
    pub location: Option<String>,
    /// Device types (e.g., "dn:NetworkVideoTransmitter")
    pub types: Vec<String>,
    /// ONVIF scopes
    pub scopes: Vec<String>,
    /// Metadata version
    pub metadata_version: u32,
    /// When this device was discovered (milliseconds since UNIX epoch)
    pub discovered_at: u64,
    /// Response time from probe to response (milliseconds)
    pub response_time: u64,
}

/// The view of a `DiscoveredDevice`.
#[verifier::ext_equal]
pub struct DiscoveredDeviceView {
    pub uuid: Seq<char>,
    pub name: Seq<char>,
    pub manufacturer: Seq<char>,
    pub model: Seq<char>,
    pub ip_address: Ipv4Addr,
    pub mac_address: Option<Seq<char>>,
    pub device_service_url: Seq<char>,
    pub hardware_info: Seq<char>,
    pub location: Option<Seq<char>>,
    pub types: Seq<Seq<char>>,
    pub scopes: Seq<Seq<char>>,
    pub metadata_version: u32,
    pub discovered_at: u64,
    pub response_time: u64,
}

impl View for DiscoveredDevice {
    type V = DiscoveredDeviceView;

    open spec fn view(&self) -> DiscoveredDeviceView {
        DiscoveredDeviceView {
            uuid: self.uuid@,
            name: self.name@,
            manufacturer: self.manufacturer@,
            model: self.model@,
            ip_address: self.ip_address,
            mac_address: xml::text_view(self.mac_address),
            device_service_url: self.device_service_url@,
            hardware_info: self.hardware_info@,
            location: xml::text_view(self.location),
            types: text::texts(self.types@),
            scopes: text::texts(self.scopes@),
            metadata_version: self.metadata_version,
            discovered_at: self.discovered_at,
            response_time: self.response_time,
        }
    }
}

/// Credentials for device authentication
#[derive(Debug, Clone)]
pub struct Credentials {
    pub username: String,
    pub password: String,
}

// ---------------------------------------------------------------------------------------------
// Options
// ---------------------------------------------------------------------------------------------

/// Options for discovery behavior
#[derive(Debug, Clone)]
pub struct DiscoveryOptions {
    /// Timeout for discovery scan
    pub timeout: Duration,
    /// Specific network interfaces to scan (empty = all)
    pub interfaces: Vec<String>,
    /// Include IPv6 discovery
    pub include_ipv6: bool,
    /// Maximum number of results to return
    pub max_results: usize,
    /// Additional subnets to probe directly (for cross-subnet discovery)
    /// Example: vec!["192.168.3.0/24", "10.0.1.0/24"]
    pub additional_subnets: Vec<String>,
    /// Use directed broadcast in addition to multicast
    /// Helps with some network configurations
    pub use_broadcast: bool,
    /// Custom multicast TTL (default: 2 for local network)
    pub multicast_ttl: u32,
}

/// The view of `DiscoveryOptions`; the timeout is in nanoseconds.
#[verifier::ext_equal]
pub struct DiscoveryOptionsView {
    pub timeout: nat,
    pub interfaces: Seq<Seq<char>>,
    pub include_ipv6: bool,
    pub max_results: usize,
    pub additional_subnets: Seq<Seq<char>>,
    pub use_broadcast: bool,
    pub multicast_ttl: u32,
}

impl View for DiscoveryOptions {
    type V = DiscoveryOptionsView;

    open spec fn view(&self) -> DiscoveryOptionsView {
        DiscoveryOptionsView {
            timeout: self.timeout@,
            interfaces: text::texts(self.interfaces@),
            include_ipv6: self.include_ipv6,
            max_results: self.max_results,
            additional_subnets: text::texts(self.additional_subnets@),
            use_broadcast: self.use_broadcast,
            multicast_ttl: self.multicast_ttl,
        }
    }
}

/// A discovery on the local subnet.
pub open spec fn default_options() -> DiscoveryOptionsView {
    DiscoveryOptionsView {
        timeout: DEFAULT_DISCOVERY_TIMEOUT as nat * NANOS_PER_SEC as nat,
        interfaces: Seq::empty(),
        include_ipv6: false,
        max_results: MAX_DISCOVERY_RESULTS,
        additional_subnets: Seq::empty(),
        use_broadcast: false,
        multicast_ttl: DEFAULT_MULTICAST_TTL,
    }
}

/// A discovery on the local subnet and on `subnets`: broadcasts, and multicasts that reach
/// further.
pub open spec fn subnet_options(subnets: Seq<Seq<char>>) -> DiscoveryOptionsView {
    DiscoveryOptionsView {
        additional_subnets: subnets,
        use_broadcast: true,
        multicast_ttl: SUBNET_MULTICAST_TTL,
        ..default_options()
    }
}

/// Subnets that cameras are commonly found on.
pub open spec fn common_subnets() -> Seq<Seq<char>> {
    seq![
        "192.168.1.0/24"@,
        "192.168.2.0/24"@,
        "192.168.3.0/24"@,
        "192.168.0.0/24"@,
        "10.0.0.0/24"@,
        "10.0.1.0/24"@,
    ]
}

/// A discovery on other subnets as well differs from one on the local subnet in that it probes
/// those subnets, all of them, broadcasts, and reaches one router further.
pub proof fn law_subnet_options(subnets: Seq<Seq<char>>)
    ensures
        ({
            let local = default_options();
            let wide = subnet_options(subnets);
            &&& wide.additional_subnets == subnets
            &&& wide.use_broadcast
            &&& wide.multicast_ttl == 3
            &&& wide.timeout == local.timeout
            &&& wide.interfaces == local.interfaces
            &&& wide.include_ipv6 == local.include_ipv6
            &&& wide.max_results == local.max_results
            &&& local.additional_subnets.len() == 0
            &&& !local.use_broadcast
            &&& local.multicast_ttl == 2
            &&& local.timeout == 5_000_000_000
            &&& local.interfaces.len() == 0
            &&& !local.include_ipv6
            &&& local.max_results == 100
        }),
{
}

impl Default for DiscoveryOptions {
    fn default() -> (r: Self)
        ensures
            r@ == default_options(),
    {
        let r = Self {
            timeout: Duration::from_secs(DEFAULT_DISCOVERY_TIMEOUT),
            interfaces: Vec::new(),
            include_ipv6: false,
            max_results: MAX_DISCOVERY_RESULTS,
            additional_subnets: Vec::new(),
            use_broadcast: false,
            multicast_ttl: DEFAULT_MULTICAST_TTL,
        };
        assert(r@ =~= default_options());
        r
    }
}

impl DiscoveryOptions {
    /// The options of a discovery with a custom timeout.
    pub fn with_timeout(timeout: Duration) -> (r: Self)
        ensures
            r@ == (DiscoveryOptionsView { timeout: timeout@, ..default_options() }),
    {
        let mut r = Self::default();
        r.timeout = timeout;
        r
    }

    /// The options of a discovery across multiple subnets.
    pub fn for_subnets(subnets: Vec<String>) -> (r: Self)
        ensures
            r@ == subnet_options(text::texts(subnets@)),
    {
        let mut r = Self::default();
        r.additional_subnets = subnets;
        r.use_broadcast = true;
        r.multicast_ttl = SUBNET_MULTICAST_TTL;
        r
    }

    /// The options of a discovery on common subnets.
    pub fn extended() -> (r: Self)
        ensures
            r@ == (DiscoveryOptionsView {
                timeout: EXTENDED_DISCOVERY_TIMEOUT as nat * NANOS_PER_SEC as nat,
                ..subnet_options(common_subnets())
            }),
    {
        let subnets = vec![
            "192.168.1.0/24".to_owned(),
            "192.168.2.0/24".to_owned(),
            "192.168.3.0/24".to_owned(),
            "192.168.0.0/24".to_owned(),
            "10.0.0.0/24".to_owned(),
            "10.0.1.0/24".to_owned(),
        ];
        assert(text::texts(subnets@) =~= common_subnets());
        let mut r = Self::for_subnets(subnets);
        r.timeout = Duration::from_secs(EXTENDED_DISCOVERY_TIMEOUT);
        r
    }

    /// The options of a discovery on a specific subnet.
    pub fn for_subnet(subnet: &str) -> (r: Self)
        ensures
            r@ == (DiscoveryOptionsView {
                timeout: SUBNET_DISCOVERY_TIMEOUT as nat * NANOS_PER_SEC as nat,
                ..subnet_options(seq![subnet@])
            }),
    {
        let subnets = vec![subnet.to_owned()];
        assert(text::texts(subnets@) =~= seq![subnet@]);
        let mut r = Self::for_subnets(subnets);
        r.timeout = Duration::from_secs(SUBNET_DISCOVERY_TIMEOUT);
        r
    }
}

// ---------------------------------------------------------------------------------------------
// Errors
// ---------------------------------------------------------------------------------------------

/// Errors that can occur during discovery
#[derive(Debug)]
pub enum DiscoveryError {
    /// The network failed, and how.
    Network(String),
    XmlParsing(String),
    InvalidResponse(String),
    Timeout,
    NoInterfaces,
}

/// The view of a `DiscoveryError`.
pub enum DiscoveryErrorView {
    Network(Seq<char>),
    XmlParsing(Seq<char>),
    InvalidResponse(Seq<char>),
    Timeout,
    NoInterfaces,
}

impl View for DiscoveryError {
    type V = DiscoveryErrorView;

    open spec fn view(&self) -> DiscoveryErrorView {
        match self {
            DiscoveryError::Network(m) => DiscoveryErrorView::Network(m@),
            DiscoveryError::XmlParsing(m) => DiscoveryErrorView::XmlParsing(m@),
            DiscoveryError::InvalidResponse(m) => DiscoveryErrorView::InvalidResponse(m@),
            DiscoveryError::Timeout => DiscoveryErrorView::Timeout,
            DiscoveryError::NoInterfaces => DiscoveryErrorView::NoInterfaces,
        }
    }
}

/// The message of a discovery error.
pub open spec fn discovery_message(error: DiscoveryErrorView) -> Seq<char> {
    match error {
        DiscoveryErrorView::Network(m) => "Network error: "@ + m,
        DiscoveryErrorView::XmlParsing(m) => "XML parsing error: "@ + m,
        DiscoveryErrorView::InvalidResponse(m) => "Invalid device response: "@ + m,
        DiscoveryErrorView::Timeout => "Discovery timeout"@,
        DiscoveryErrorView::NoInterfaces => "No network interfaces available"@,
    }
}

/// The message of an error says what kind of error it is, and ends with the reason that was given,
/// whole, if there is one.
pub proof fn law_discovery_message(error: DiscoveryErrorView)
    ensures
        ({
            let message = discovery_message(error);
            &&& error is Network ==> message == "Network error: "@ + error->Network_0
            &&& error is XmlParsing ==> message == "XML parsing error: "@ + error->XmlParsing_0
            &&& error is InvalidResponse ==> message == "Invalid device response: "@
                + error->InvalidResponse_0
            &&& error is Timeout ==> message == "Discovery timeout"@
            &&& error is NoInterfaces ==> message == "No network interfaces available"@
        }),
{
}

impl DiscoveryError {
    /// The message of the error.
    pub fn to_string(&self) -> (r: String)
        ensures
            r@ == discovery_message(self@),
    {
        match self {
            DiscoveryError::Network(m) => "Network error: ".to_owned().concat(m),
            DiscoveryError::XmlParsing(m) => "XML parsing error: ".to_owned().concat(m),
            DiscoveryError::InvalidResponse(m) => {
                "Invalid device response: ".to_owned().concat(m)
            },
            DiscoveryError::Timeout => "Discovery timeout".to_owned(),
            DiscoveryError::NoInterfaces => "No network interfaces available".to_owned(),
        }
    }
}

} // verus!
