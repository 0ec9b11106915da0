//! The relay's configuration: two key maps and an optional list of device
//! selectors.
//!
//! A configuration arrives as names ("KEY_ESC") and leaves as key codes.
//! Reading the file and its syntax belong to the caller, which hands over
//! the pairs of names that it found.

use std::collections::HashMap;
use std::str::FromStr;
use vstd::prelude::*;

verus! {

broadcast use vstd::std_specs::hash::group_hash_axioms;

/// A map from key code to key code.
pub type KeyCodeMap = HashMap<u16, u16>;

/// Which of the two key maps.
#[derive(Clone, Copy, Debug, PartialEq, Eq, Structural)]
pub enum Direction {
    /// From the wire to the local replay device.
    Incoming,
    /// From a local capture device to the wire.
    Outgoing,
}

/// Why a configuration was refused.
#[derive(Clone, Debug, PartialEq, Eq)]
pub enum ConfigError {
    /// Entry number `index` of the `which` map names a key that does not
    /// exist. `key_code` and `value_code` hold the codes of the names that
    /// do exist.
    InvalidMapping {
        which: Direction,
        index: usize,
        key: String,
        value: String,
        key_code: Option<u16>,
        value_code: Option<u16>,
    },
}

/// The configuration of a relay client.
#[derive(Debug, Clone)]
pub struct KeySyncConfig {
    /// Wire code to local replay code.
    pub incoming: KeyCodeMap,
    /// Local capture code to wire code.
    pub outgoing: KeyCodeMap,
    /// Selectors of the capture devices; `None` selects every keyboard.
    pub devices: Option<Vec<String>>,
}

/// The text of a new configuration file: both maps empty, with comments
/// that explain the format.
pub const DEFAULT_CONFIG: &'static str = "# KeySync config.
# devices: (optional) List of keyboard devices to monitor.
#   Each entry can be a device path (starting with /) or a regex for the device name.
#   If omitted (null), all detected keyboards will be monitored.
#   If empty, no devices will be monitored.
# devices:
#   - /dev/input/event3 # Path directly to the device
#   - MyKeyboard        # A substring match (regex)
#   - '^My Keyboard$'   # An anchored regex

# incoming: Maps key presses received FROM the server to your local machine.
#   Format: \"REMOTE_KEY_NAME\": \"LOCAL_KEY_NAME\"
incoming:
  # Example 1: Relay the Escape key 1:1.
  # If the server sends KEY_ESC, your local machine will also process it as KEY_ESC.
  # \"KEY_ESC\": \"KEY_ESC\"

  # Example 2: Map remote KEY_F1 to local KEY_F2.
  # If the server sends KEY_F1, your local machine will interpret it as KEY_F2.
  # \"KEY_F1\": \"KEY_F2\"

# outgoing: Maps key presses FROM your local machine to be sent TO the server.
#   Format: \"LOCAL_KEY_NAME\": \"KEY_TO_SEND\"
outgoing:
  # Example 1: Map your local Grave key (`) to the Escape key for the server.
  # If you press ` (GRAVE) on your keyboard, KEY_ESC will be sent to the server.
  # \"KEY_GRAVE\": \"KEY_ESC\"

  # Example 2: Send KEY_X as is.
  # If you press X on your keyboard, KEY_X will be sent to the server.
  # \"KEY_X\": \"KEY_X\"
";

/// The code of the key that `evdev::KeyCode::from_str` finds under `name`,
/// or `None` where it finds none.
pub uninterp spec fn key_code_named(name: Seq<char>) -> Option<u16>;

/// Calls `evdev::KeyCode::from_str`, which looks `name` up in the crate's
/// table of key names, and hands back the code of the key it finds. The
/// contract names the result.
#[verifier::external_body]
fn key_code_from_name(name: &str) -> (code: Option<u16>)
    ensures
        code == key_code_named(name@),
{
    match evdev::KeyCode::from_str(name) {
        Ok(key) => Some(key.code()),
        Err(_) => None,
    }
}

/// Whether both names of an entry were found.
pub open spec fn is_resolved(entry: (Option<u16>, Option<u16>)) -> bool {
    entry.0 is Some && entry.1 is Some
}

/// Whether `index` is the place of the first entry with a name that was
/// not found.
pub open spec fn is_first_unresolved(entries: Seq<(Option<u16>, Option<u16>)>, index: int) -> bool {
    &&& 0 <= index < entries.len()
    &&& !is_resolved(entries[index])
    &&& forall|j: int| 0 <= j < index ==> is_resolved(#[trigger] entries[j])
}

/// Whether every entry has both names found.
pub open spec fn all_resolved(entries: Seq<(Option<u16>, Option<u16>)>) -> bool {
    forall|j: int| 0 <= j < entries.len() ==> is_resolved(#[trigger] entries[j])
}

/// The map that the entries describe: each entry maps its first code to
/// its second, and where a code occurs first in several entries the last of
/// them counts.
pub open spec fn mapping_of(entries: Seq<(Option<u16>, Option<u16>)>) -> Map<u16, u16>
    decreases entries.len(),
{
    if entries.len() == 0 {
        Map::empty()
    } else {
        mapping_of(entries.drop_last()).insert(entries.last().0->Some_0, entries.last().1->Some_0)
    }
}

/// The codes of the names of each pair.
pub open spec fn resolved(pairs: Seq<(String, String)>) -> Seq<(Option<u16>, Option<u16>)> {
    Seq::new(pairs.len(), |i: int| (key_code_named(pairs[i].0@), key_code_named(pairs[i].1@)))
}

/// Builds a key map from entries whose names have been looked up. Returns
/// the map if every name was found, and otherwise the place of the first
/// entry with a name that was not.
pub fn build_key_code_map(entries: &Vec<(Option<u16>, Option<u16>)>) -> (r: Result<
    KeyCodeMap,
    usize,
>)
    ensures
        r matches Ok(map) ==> all_resolved(entries@) && map@ == mapping_of(entries@),
        r matches Err(index) ==> is_first_unresolved(entries@, index as int),
{
    let mut map: KeyCodeMap = HashMap::new();
    let mut i: usize = 0;
    while i < entries.len()
        invariant
            i <= entries.len(),
            forall|j: int| 0 <= j < i ==> is_resolved(#[trigger] entries@[j]),
            map@ == mapping_of(entries@.take(i as int)),
        decreases entries.len() - i,
    {
        let entry = entries[i];
        match entry {
            (Some(key), Some(value)) => {
                map.insert(key, value);
                proof {
                    let upto = entries@.take(i as int + 1);
                    assert(upto.drop_last() =~= entries@.take(i as int));
                }
            },
            _ => {
                return Err(i);
            },
        }
        i += 1;
    }
    proof {
        assert(entries@.take(i as int) =~= entries@);
    }
    Ok(map)
}

/// Turns pairs of key names into a key map. Fails on the first pair that
/// names a key that does not exist, and says which pair it was.
pub fn parse_key_code_map(pairs: &Vec<(String, String)>, which: Direction) -> (r: Result<
    KeyCodeMap,
    ConfigError,
>)
    ensures
        r matches Ok(map) ==> all_resolved(resolved(pairs@)) && map@ == mapping_of(
            resolved(pairs@),
        ),
        r matches Err(e) ==> is_invalid_mapping(e, pairs@, which),
{
    let mut entries: Vec<(Option<u16>, Option<u16>)> = Vec::new();
    let mut i: usize = 0;
    while i < pairs.len()
        invariant
            i <= pairs.len(),
            entries@ == resolved(pairs@).take(i as int),
        decreases pairs.len() - i,
    {
        let key_code = key_code_from_name(pairs[i].0.as_str());
        let value_code = key_code_from_name(pairs[i].1.as_str());
        entries.push((key_code, value_code));
        i += 1;
    }
    proof {
        assert(resolved(pairs@).take(i as int) =~= resolved(pairs@));
    }
    match build_key_code_map(&entries) {
        Ok(map) => Ok(map),
        Err(index) => Err(
            ConfigError::InvalidMapping {
                which,
                index,
                key: pairs[index].0.clone(),
                value: pairs[index].1.clone(),
                key_code: entries[index].0,
                value_code: entries[index].1,
            },
        ),
    }
}

/// The map holds a code exactly where an entry starts with it, and gives
/// for it the second code of the last such entry.
pub proof fn lemma_last_entry_counts(entries: Seq<(Option<u16>, Option<u16>)>)
    requires
        all_resolved(entries),
    ensures
        forall|code: u16| #[trigger]
            mapping_of(entries).contains_key(code) <==> exists|i: int|
                0 <= i < entries.len() && (#[trigger] entries[i]).0 == Some(code),
        forall|i: int|
            0 <= i < entries.len() && (forall|j: int|
                i < j < entries.len() ==> (#[trigger] entries[j]).0 != entries[i].0) ==> mapping_of(
                entries,
            )[(#[trigger] entries[i]).0->Some_0] == entries[i].1->Some_0,
    decreases entries.len(),
{
    if entries.len() > 0 {
        let front = entries.drop_last();
        let last = entries.last();
        assert(is_resolved(entries[entries.len() - 1]));
        assert forall|j: int| 0 <= j < front.len() implies is_resolved(#[trigger] front[j]) by {
            assert(front[j] == entries[j]);
        }
        lemma_last_entry_counts(front);
        assert forall|code: u16| #[trigger]
            mapping_of(entries).contains_key(code) <==> exists|i: int|
                0 <= i < entries.len() && (#[trigger] entries[i]).0 == Some(code) by {
            if mapping_of(front).contains_key(code) {
                let i = choose|i: int| 0 <= i < front.len() && (#[trigger] front[i]).0 == Some(code);
                assert(entries[i].0 == Some(code));
            }
            if exists|i: int| 0 <= i < entries.len() && (#[trigger] entries[i]).0 == Some(code) {
                let i = choose|i: int|
                    0 <= i < entries.len() && (#[trigger] entries[i]).0 == Some(code);
                if i < front.len() {
                    assert(front[i].0 == Some(code));
                }
            }
        }
        assert forall|i: int|
            0 <= i < entries.len() && (forall|j: int|
                i < j < entries.len() ==> (#[trigger] entries[j]).0 != entries[i].0) implies mapping_of(
            entries,
        )[(#[trigger] entries[i]).0->Some_0] == entries[i].1->Some_0 by {
            if i < front.len() {
                assert(front[i] == entries[i]);
                assert(entries[entries.len() - 1].0 != entries[i].0);
                assert forall|j: int| i < j < front.len() implies (#[trigger] front[j]).0
                    != front[i].0 by {
                    assert(front[j] == entries[j]);
                }
            }
        }
    }
}

/// Whether `e` reports the first pair of `pairs` that names a key that does
/// not exist.
pub open spec fn is_invalid_mapping(e: ConfigError, pairs: Seq<(String, String)>, which: Direction) -> bool {
    match e {
        ConfigError::InvalidMapping { which: w, index, key, value, key_code, value_code } => {
            &&& w == which
            &&& is_first_unresolved(resolved(pairs), index as int)
            &&& key@ == pairs[index as int].0@
            &&& value@ == pairs[index as int].1@
            &&& key_code == key_code_named(key@)
            &&& value_code == key_code_named(value@)
        },
    }
}

impl KeySyncConfig {
    /// Name of the configuration file.
    pub fn file_name() -> (name: &'static str)
        ensures
            name@ == "config.yaml"@,
    {
        "config.yaml"
    }

    /// The text to write into a configuration file that does not exist yet.
    pub fn default_config_string() -> (text: &'static str)
        ensures
            text@ == DEFAULT_CONFIG@,
    {
        DEFAULT_CONFIG
    }

    /// Builds a configuration from the names found in a file. The incoming
    /// map is checked first, then the outgoing map; the first pair that
    /// names a key that does not exist is reported.
    pub fn from_names(
        incoming: &Vec<(String, String)>,
        outgoing: &Vec<(String, String)>,
        devices: Option<Vec<String>>,
    ) -> (r: Result<KeySyncConfig, ConfigError>)
        ensures
            r matches Ok(config) ==> {
                &&& all_resolved(resolved(incoming@))
                &&& all_resolved(resolved(outgoing@))
                &&& config.incoming@ == mapping_of(resolved(incoming@))
                &&& config.outgoing@ == mapping_of(resolved(outgoing@))
                &&& config.devices == devices
            },
            r matches Err(e) ==> if all_resolved(resolved(incoming@)) {
                is_invalid_mapping(e, outgoing@, Direction::Outgoing)
            } else {
                is_invalid_mapping(e, incoming@, Direction::Incoming)
            },
    {
        let incoming_map = match parse_key_code_map(incoming, Direction::Incoming) {
            Ok(map) => map,
            Err(e) => {
                return Err(e);
            },
        };
        let outgoing_map = match parse_key_code_map(outgoing, Direction::Outgoing) {
            Ok(map) => map,
            Err(e) => {
                return Err(e);
            },
        };
        Ok(KeySyncConfig { incoming: incoming_map, outgoing: outgoing_map, devices })
    }

    /// Whether the configuration maps any key at all, in either direction.
    pub fn has_mappings(&self) -> (any: bool)
        ensures
            any == !(self.incoming@.is_empty() && self.outgoing@.is_empty()),
    {
        !(self.incoming.is_empty() && self.outgoing.is_empty())
    }
}

} // verus!
