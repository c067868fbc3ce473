use vstd::prelude::*;
use vstd::std_specs::hash::{builds_valid_hashers, obeys_key_model};
use vstd::string::*;

use std::collections::hash_map::RandomState;
use std::collections::HashMap;

verus! {

/// `a` and `b` hold the same characters.
fn str_eq(a: &str, b: &str) -> (r: bool)
    ensures
        r == (a@ == b@),
{
    let n = a.unicode_len();
    if n != b.unicode_len() {
        return false;
    }
    let mut i: usize = 0;
    while i < n
        invariant
            n == a@.len(),
            n == b@.len(),
            i <= n,
            a@.take(i as int) == b@.take(i as int),
        decreases n - i,
    {
        if a.get_char(i) != b.get_char(i) {
            return false;
        }
        proof {
            assert(a@.take(i + 1) =~= a@.take(i as int).push(a@[i as int]));
            assert(b@.take(i + 1) =~= b@.take(i as int).push(b@[i as int]));
        }
        i = i + 1;
    }
    proof {
        assert(a@.take(n as int) =~= a@);
        assert(b@.take(n as int) =~= b@);
    }
    true
}

/// The operating system a remote peer runs, for display.
#[derive(Debug, Clone)]
pub enum OperatingSystem {
    Windows,
    Linux,
    MacOS,
    Ios,
    Android,
    Other(String),
}

/// The text that names an operating system; for `Other` the stored text
/// without its first character, as it was stored with a marker character.
pub open spec fn os_text(os: OperatingSystem) -> Seq<char> {
    match os {
        OperatingSystem::Windows => "Windows"@,
        OperatingSystem::Linux => "Linux"@,
        OperatingSystem::MacOS => "MacOS"@,
        OperatingSystem::Ios => "IOS"@,
        OperatingSystem::Android => "Android"@,
        OperatingSystem::Other(s) => if s@.len() == 0 {
            Seq::empty()
        } else {
            s@.skip(1)
        },
    }
}

/// `os` is what the text `s` parses to: its first character picks a known
/// system, anything else is kept whole as `Other`.
pub open spec fn os_parsed_from(os: OperatingSystem, s: Seq<char>) -> bool {
    let first = if s.len() > 0 {
        Some(s[0])
    } else {
        None
    };
    match first {
        Some('W') => os is Windows,
        Some('L') => os is Linux,
        Some('M') => os is MacOS,
        Some('I') => os is Ios,
        Some('A') => os is Android,
        _ => os matches OperatingSystem::Other(t) && t@ == s,
    }
}

/// `os` is the system that a platform name such as "linux" stands for.
pub open spec fn os_named(os: OperatingSystem, name: Seq<char>) -> bool {
    if name == "windows"@ {
        os is Windows
    } else if name == "macos"@ {
        os is MacOS
    } else if name == "linux"@ {
        os is Linux
    } else if name == "ios"@ {
        os is Ios
    } else if name == "android"@ {
        os is Android
    } else {
        os matches OperatingSystem::Other(t) && t@ == name
    }
}

impl OperatingSystem {
    /// The system for a platform name as the standard library spells it.
    pub fn from_os_name(name: &str) -> (r: OperatingSystem)
        ensures
            os_named(r, name@),
    {
        if str_eq(name, "windows") {
            OperatingSystem::Windows
        } else if str_eq(name, "macos") {
            OperatingSystem::MacOS
        } else if str_eq(name, "linux") {
            OperatingSystem::Linux
        } else if str_eq(name, "ios") {
            OperatingSystem::Ios
        } else if str_eq(name, "android") {
            OperatingSystem::Android
        } else {
            OperatingSystem::Other(name.to_owned())
        }
    }

    /// The text stored for this system.
    pub fn to_string(&self) -> (r: String)
        ensures
            r@ == os_text(*self),
    {
        match self {
            OperatingSystem::Windows => "Windows".to_owned(),
            OperatingSystem::Linux => "Linux".to_owned(),
            OperatingSystem::MacOS => "MacOS".to_owned(),
            OperatingSystem::Ios => "IOS".to_owned(),
            OperatingSystem::Android => "Android".to_owned(),
            OperatingSystem::Other(s) => {
                let t = s.as_str();
                let n = t.unicode_len();
                if n == 0 {
                    String::new()
                } else {
                    t.substring_char(1, n).to_owned()
                }
            },
        }
    }

    /// Parses stored text; every text parses.
    pub fn from_str(s: &str) -> (r: Result<OperatingSystem, ()>)
        ensures
            r matches Ok(os) && os_parsed_from(os, s@),
    {
        if s.unicode_len() == 0 {
            return Ok(OperatingSystem::Other(s.to_owned()));
        }
        let c = s.get_char(0);
        if c == 'W' {
            Ok(OperatingSystem::Windows)
        } else if c == 'L' {
            Ok(OperatingSystem::Linux)
        } else if c == 'M' {
            Ok(OperatingSystem::MacOS)
        } else if c == 'I' {
            Ok(OperatingSystem::Ios)
        } else if c == 'A' {
            Ok(OperatingSystem::Android)
        } else {
            Ok(OperatingSystem::Other(s.to_owned()))
        }
    }
}

impl std::str::FromStr for OperatingSystem {
    type Err = ();

    fn from_str(s: &str) -> Result<OperatingSystem, ()> {
        OperatingSystem::from_str(s)
    }
}

/// The platform a node reports for itself.
#[derive(Clone, Copy, Debug, PartialEq, Eq, Structural)]
pub enum Platform {
    Unknown,
    Windows,
    Linux,
    MacOS,
    IOS,
    Android,
}

/// `os` is the operating system of platform `p`; an unknown platform is
/// `Other("Unknown")`.
pub open spec fn os_of_platform(os: OperatingSystem, p: Platform) -> bool {
    match p {
        Platform::Unknown => os matches OperatingSystem::Other(t) && t@ == "Unknown"@,
        Platform::Windows => os is Windows,
        Platform::Linux => os is Linux,
        Platform::MacOS => os is MacOS,
        Platform::IOS => os is Ios,
        Platform::Android => os is Android,
    }
}

impl OperatingSystem {
    pub fn from_platform(platform: Platform) -> (r: OperatingSystem)
        ensures
            os_of_platform(r, platform),
    {
        match platform {
            Platform::Unknown => OperatingSystem::Other("Unknown".to_owned()),
            Platform::Windows => OperatingSystem::Windows,
            Platform::Linux => OperatingSystem::Linux,
            Platform::MacOS => OperatingSystem::MacOS,
            Platform::IOS => OperatingSystem::Ios,
            Platform::Android => OperatingSystem::Android,
        }
    }
}

/// The hardware model of a device.
#[derive(Clone, Copy, Debug, PartialEq, Eq, Structural)]
pub enum HardwareModel {
    Other,
    MacStudio,
    MacBookAir,
    MacBookPro,
    MacBook,
    MacMini,
    MacPro,
    IMac,
    IMacPro,
    IPad,
    IPhone,
    Simulator,
    Android,
}

/// The display name of each model.
pub open spec fn model_name(m: HardwareModel) -> Seq<char> {
    match m {
        HardwareModel::Other => "Other"@,
        HardwareModel::MacStudio => "MacStudio"@,
        HardwareModel::MacBookAir => "MacBookAir"@,
        HardwareModel::MacBookPro => "MacBookPro"@,
        HardwareModel::MacBook => "MacBook"@,
        HardwareModel::MacMini => "MacMini"@,
        HardwareModel::MacPro => "MacPro"@,
        HardwareModel::IMac => "IMac"@,
        HardwareModel::IMacPro => "IMacPro"@,
        HardwareModel::IPad => "IPad"@,
        HardwareModel::IPhone => "IPhone"@,
        HardwareModel::Simulator => "Simulator"@,
        HardwareModel::Android => "Android"@,
    }
}

impl HardwareModel {
    pub fn to_string(&self) -> (r: String)
        ensures
            r@ == model_name(*self),
    {
        match self {
            HardwareModel::Other => "Other".to_owned(),
            HardwareModel::MacStudio => "MacStudio".to_owned(),
            HardwareModel::MacBookAir => "MacBookAir".to_owned(),
            HardwareModel::MacBookPro => "MacBookPro".to_owned(),
            HardwareModel::MacBook => "MacBook".to_owned(),
            HardwareModel::MacMini => "MacMini".to_owned(),
            HardwareModel::MacPro => "MacPro".to_owned(),
            HardwareModel::IMac => "IMac".to_owned(),
            HardwareModel::IMacPro => "IMacPro".to_owned(),
            HardwareModel::IPad => "IPad".to_owned(),
            HardwareModel::IPhone => "IPhone".to_owned(),
            HardwareModel::Simulator => "Simulator".to_owned(),
            HardwareModel::Android => "Android".to_owned(),
        }
    }

    /// The model whose display name is `name`; `Other` for any name that is
    /// not one of them.
    pub fn from_display_name(name: &str) -> (r: HardwareModel)
        ensures
            r == HardwareModel::Other || model_name(r) == name@,
            (exists|m: HardwareModel| model_name(m) == name@) ==> model_name(r) == name@,
    {
        let all = [
            HardwareModel::MacStudio,
            HardwareModel::MacBookAir,
            HardwareModel::MacBookPro,
            HardwareModel::MacBook,
            HardwareModel::MacMini,
            HardwareModel::MacPro,
            HardwareModel::IMac,
            HardwareModel::IMacPro,
            HardwareModel::IPad,
            HardwareModel::IPhone,
            HardwareModel::Simulator,
            HardwareModel::Android,
        ];
        let mut i: usize = 0;
        while i < 12
            invariant
                i <= 12,
                all@.len() == 12,
                forall|m: HardwareModel| m != HardwareModel::Other && model_name(m) == name@
                    ==> exists|j: int| i <= j < 12 && all@[j] == m,
            decreases 12 - i,
        {
            let m = all[i];
            let text = m.to_string();
            if str_eq(text.as_str(), name) {
                return m;
            }
            i = i + 1;
        }
        HardwareModel::Other
    }
}

/// What a peer announces about itself.
#[derive(Debug, Clone)]
pub struct PeerMetadata {
    pub name: String,
    pub operating_system: Option<OperatingSystem>,
    pub device_model: Option<HardwareModel>,
    pub version: Option<String>,
}

/// `m` maps some key with the characters `key` to a value with the
/// characters `value`.
pub open spec fn has_entry(m: Map<String, String>, key: Seq<char>, value: Seq<char>) -> bool {
    exists|k: String| k@ == key && #[trigger] m.contains_key(k) && m[k]@ == value
}

/// `m` has no key equal to the probe `k`.
pub open spec fn lacks_key(m: Map<String, String>, key: Seq<char>) -> bool {
    exists|k: String| k@ == key && !#[trigger] m.contains_key(k)
}

/// The hash map behaves as a map of strings.
pub open spec fn string_map_model() -> bool {
    obeys_key_model::<String>() && builds_valid_hashers::<RandomState>()
}

impl PeerMetadata {
    /// Writes the metadata into a record map: the name always, and the
    /// system, version and model where they are known. Other keys keep their
    /// values.
    pub fn update(self, map: &mut HashMap<String, String>)
        ensures
            string_map_model() ==> {
                &&& has_entry(final(map)@, "name"@, self.name@)
                &&& self.operating_system matches Some(os) ==> has_entry(
                    final(map)@,
                    "os"@,
                    os_text(os),
                )
                &&& self.version matches Some(v) ==> has_entry(final(map)@, "version"@, v@)
                &&& self.device_model matches Some(d) ==> has_entry(
                    final(map)@,
                    "device_model"@,
                    model_name(d),
                )
                &&& forall|k: String|
                    #[trigger] final(map)@.contains_key(k) ==> old(map)@.contains_key(k) || k@
                        == "name"@ || k@ == "os"@ || k@ == "version"@ || k@ == "device_model"@
                &&& forall|k: String|
                    #[trigger] old(map)@.contains_key(k) && k@ != "name"@ && k@ != "os"@ && k@
                        != "version"@ && k@ != "device_model"@ ==> final(map)@.contains_key(k)
                        && final(map)@[k] == old(map)@[k]
            },
    {
        proof {
            reveal_strlit("name");
            reveal_strlit("os");
            reveal_strlit("version");
            reveal_strlit("device_model");
        }
        let name_key = "name".to_owned();
        let ghost g_name = name_key;
        let name_value = self.name.clone();
        let ghost g_name_value = name_value;
        map.insert(name_key, name_value);
        let ghost mut g_os: Option<(String, String)> = None;
        if let Some(os) = self.operating_system {
            let k = "os".to_owned();
            let v = os.to_string();
            proof {
                g_os = Some((k, v));
                // keys of different lengths are different keys
                assert(k@.len() == 2);
                assert(g_name@.len() == 4);
            }
            map.insert(k, v);
        }
        let ghost mut g_version: Option<(String, String)> = None;
        if let Some(version) = self.version {
            let k = "version".to_owned();
            proof {
                g_version = Some((k, version));
                assert(k@.len() == 7);
                assert(g_name@.len() == 4);
                if let Some((ko, _)) = g_os {
                    assert(ko@.len() == 2);
                }
            }
            map.insert(k, version);
        }
        let ghost mut g_model: Option<(String, String)> = None;
        if let Some(device_model) = self.device_model {
            let k = "device_model".to_owned();
            let v = device_model.to_string();
            proof {
                g_model = Some((k, v));
                assert(k@.len() == 12);
                assert(g_name@.len() == 4);
                if let Some((ko, _)) = g_os {
                    assert(ko@.len() == 2);
                }
                if let Some((kv, _)) = g_version {
                    assert(kv@.len() == 7);
                }
            }
            map.insert(k, v);
        }
        proof {
            if string_map_model() {
                assert(map@.contains_key(g_name));
                assert(map@[g_name] == g_name_value);
                if let Some((k, v)) = g_os {
                    assert(map@.contains_key(k) && map@[k] == v);
                }
                if let Some((k, v)) = g_version {
                    assert(map@.contains_key(k) && map@[k] == v);
                }
                if let Some((k, v)) = g_model {
                    assert(map@.contains_key(k) && map@[k] == v);
                }
            }
        }
    }

    /// Reads metadata back from a record map. The name is required; a
    /// missing model reads as `Other`.
    pub fn from_hashmap(data: &HashMap<String, String>) -> (r: Result<PeerMetadata, String>)
        ensures
            string_map_model() ==> {
                &&& r matches Ok(p) ==> {
                    &&& has_entry(data@, "name"@, p.name@)
                    &&& match p.operating_system {
                        Some(os) => exists|k: String|
                            k@ == "os"@ && #[trigger] data@.contains_key(k) && os_parsed_from(
                                os,
                                data@[k]@,
                            ),
                        None => lacks_key(data@, "os"@),
                    }
                    &&& match p.version {
                        Some(v) => has_entry(data@, "version"@, v@),
                        None => lacks_key(data@, "version"@),
                    }
                    &&& p.device_model matches Some(d) && (has_entry(
                        data@,
                        "device_model"@,
                        model_name(d),
                    ) || d == HardwareModel::Other)
                }
                &&& r is Err ==> lacks_key(data@, "name"@)
            },
    {
        let name_key = "name".to_owned();
        let name = match data.get(&name_key) {
            Some(n) => n.clone(),
            None => {
                proof {
                    if string_map_model() {
                        assert(!data@.contains_key(name_key));
                    }
                }
                return Err(
                    "DNS record for field 'name' missing. Unable to decode 'PeerMetadata'!".to_owned(),
                );
            },
        };
        let os_key = "os".to_owned();
        let operating_system = match data.get(&os_key) {
            Some(os) => match OperatingSystem::from_str(os.as_str()) {
                Ok(parsed) => Some(parsed),
                Err(()) => {
                    return Err("Unable to parse 'OperationSystem'!".to_owned());
                },
            },
            None => None,
        };
        let model_key = "device_model".to_owned();
        let device_model = match data.get(&model_key) {
            Some(m) => {
                let d = HardwareModel::from_display_name(m.as_str());
                proof {
                    if string_map_model() && d != HardwareModel::Other {
                        assert(data@.contains_key(model_key) && data@[model_key]@ == model_name(d));
                    }
                }
                d
            },
            None => HardwareModel::Other,
        };
        let version_key = "version".to_owned();
        let version = match data.get(&version_key) {
            Some(v) => Some(v.clone()),
            None => None,
        };
        proof {
            if string_map_model() {
                assert(data@.contains_key(name_key));
                // name the probe keys, witnesses of the entries read or missing
                assert(data@.contains_key(os_key) || !data@.contains_key(os_key));
                assert(data@.contains_key(version_key) || !data@.contains_key(version_key));
            }
        }
        Ok(PeerMetadata { name, operating_system, device_model: Some(device_model), version })
    }
}

} // verus!
