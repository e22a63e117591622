//! The agent's configuration and the rule that picks it among the places
//! where a `config.toml` may stand.
use vstd::prelude::*;

verus! {

/// Configuration of the agent. Every field has a default, so the agent works
/// without any configuration file.
#[derive(Debug, Clone)]
pub struct AgentConfig {
    /// HTTP port to listen on.
    pub port: u16,
    /// USB vendor id of the printer to use, in hexadecimal (e.g. `"04b8"`).
    /// When absent, every known thermal-printer vendor is accepted.
    pub usb_vendor_id: Option<String>,
    /// USB product id of the printer to use, in hexadecimal.
    pub usb_product_id: Option<String>,
    /// USB output endpoint address.
    pub usb_endpoint: u8,
    /// Size in bytes of each write to the USB device.
    pub chunk_size: usize,
    /// System printer to print to through the OS spooler; the OS default when
    /// absent.
    pub system_printer_name: Option<String>,
    /// Try the system print backend before USB HID.
    pub prefer_system_backend: bool,
}

/// The default HTTP port.
pub fn default_port() -> (r: u16)
    ensures
        r == 8765,
{
    8765
}

/// The default USB output endpoint.
pub fn default_endpoint() -> (r: u8)
    ensures
        r == 0x01,
{
    0x01
}

/// The default size of a USB write.
pub fn default_chunk_size() -> (r: usize)
    ensures
        r == 4096,
{
    4096
}

impl AgentConfig {
    /// The configuration holds every default value.
    pub open spec fn is_default(&self) -> bool {
        &&& self.port == 8765
        &&& self.usb_vendor_id is None
        &&& self.usb_product_id is None
        &&& self.usb_endpoint == 0x01
        &&& self.chunk_size == 4096
        &&& self.system_printer_name is None
        &&& !self.prefer_system_backend
    }
}

impl Default for AgentConfig {
    fn default() -> (r: Self)
        ensures
            r.is_default(),
    {
        AgentConfig {
            port: default_port(),
            usb_vendor_id: None,
            usb_product_id: None,
            usb_endpoint: default_endpoint(),
            chunk_size: default_chunk_size(),
            system_printer_name: None,
            prefer_system_backend: false,
        }
    }
}

/// What one candidate location for `config.toml` turned out to hold.
pub enum ConfigSource {
    /// No file there.
    Missing,
    /// A file that could not be read.
    Unreadable,
    /// A file that is not a valid configuration.
    Invalid,
    /// A valid configuration.
    Parsed(AgentConfig),
}

/// The first configuration that parsed, in the order of the candidates.
pub open spec fn first_parsed(sources: Seq<ConfigSource>) -> Option<AgentConfig>
    decreases sources.len(),
{
    if sources.len() == 0 {
        None
    } else {
        match sources[0] {
            ConfigSource::Parsed(c) => Some(c),
            _ => first_parsed(sources.drop_first()),
        }
    }
}

impl AgentConfig {
    /// Picks the configuration among the candidate locations, in order of
    /// preference: the first one that holds a valid configuration wins, and
    /// with none the defaults apply.
    pub fn load(sources: Vec<ConfigSource>) -> (r: AgentConfig)
        ensures
            first_parsed(sources@) matches Some(c) ==> r == c,
            first_parsed(sources@) is None ==> r.is_default(),
    {
        let mut rest = sources;
        while rest.len() > 0
            invariant
                first_parsed(sources@) == first_parsed(rest@),
            decreases rest@.len(),
        {
            let ghost before = rest@;
            let s = rest.remove(0);
            assert(rest@ =~= before.drop_first());
            match s {
                ConfigSource::Parsed(c) => {
                    return c;
                },
                _ => {},
            }
        }
        AgentConfig::default()
    }
}

} // verus!
