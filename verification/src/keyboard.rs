//! Capture: which input devices are monitored, and which of their events
//! become key events on the wire.
//!
//! The caller lists the input devices and reads their events; this module
//! decides. A device is described by its path, its name and the key codes it
//! supports; an event by its type, code and value.

use crate::config::{KeyCodeMap, KeySyncConfig};
use crate::protocol::{event_views, KeyEvent, KeyEventView};
use std::path::Path;
use vstd::prelude::*;
use vstd::string::StrSliceExecFns;

verus! {

broadcast use vstd::std_specs::hash::group_hash_axioms;

/// Type of the events that report keys and buttons.
pub const EV_KEY: u16 = 1;

/// Value of a key event that reports a press.
pub const KEY_PRESSED: i32 = 1;

/// Code of the key A.
pub const KEY_A: u16 = 30;

/// Code of the space bar.
pub const KEY_SPACE: u16 = 57;

/// Code of the enter key.
pub const KEY_ENTER: u16 = 28;

/// Code of the side button of a mouse.
pub const BTN_SIDE: u16 = 0x113;

/// Code of the extra button of a mouse.
pub const BTN_EXTRA: u16 = 0x114;

/// One raw event of an input device.
#[derive(Clone, Copy, Debug, PartialEq, Eq, Structural)]
pub struct InputEvent {
    pub event_type: u16,
    pub code: u16,
    pub value: i32,
}

/// What is known of an input device.
#[derive(Clone, Debug, PartialEq, Eq)]
pub struct DeviceInfo {
    /// Path of the device node.
    pub path: String,
    /// Name that the device reports, if it reports one.
    pub name: Option<String>,
    /// Codes of the keys that the device reports to support.
    pub supported_keys: Vec<u16>,
}

/// Mathematical form of a [`DeviceInfo`].
pub struct DeviceInfoView {
    pub path: Seq<char>,
    pub name: Option<Seq<char>>,
    pub supported_keys: Seq<u16>,
}

impl View for DeviceInfo {
    type V = DeviceInfoView;

    open spec fn view(&self) -> DeviceInfoView {
        DeviceInfoView {
            path: self.path@,
            name: match self.name {
                Some(name) => Some(name@),
                None => None,
            },
            supported_keys: self.supported_keys@,
        }
    }
}

/// Selects capture devices, by path or by name.
#[derive(Clone, Debug, PartialEq, Eq)]
pub enum DeviceSelector {
    /// The device at this path.
    Path(String),
    /// The devices whose name this regular expression matches.
    Regex(String),
}

/// Mathematical form of a [`DeviceSelector`].
pub enum DeviceSelectorView {
    Path(Seq<char>),
    Regex(Seq<char>),
}

impl View for DeviceSelector {
    type V = DeviceSelectorView;

    open spec fn view(&self) -> DeviceSelectorView {
        match self {
            DeviceSelector::Path(path) => DeviceSelectorView::Path(path@),
            DeviceSelector::Regex(pattern) => DeviceSelectorView::Regex(pattern@),
        }
    }
}

/// Why capture could not start.
#[derive(Clone, Debug, PartialEq, Eq)]
pub enum MonitorError {
    /// This selector is no regular expression, not even taken literally.
    InvalidRegex(String),
    /// No device was selected.
    NoKeyboards,
}

/// Mathematical form of a [`MonitorError`].
pub enum MonitorErrorView {
    InvalidRegex(Seq<char>),
    NoKeyboards,
}

impl View for MonitorError {
    type V = MonitorErrorView;

    open spec fn view(&self) -> MonitorErrorView {
        match self {
            MonitorError::InvalidRegex(entry) => MonitorErrorView::InvalidRegex(entry@),
            MonitorError::NoKeyboards => MonitorErrorView::NoKeyboards,
        }
    }
}

/// Whether `regex::Regex::new` accepts `pattern`.
pub uninterp spec fn pattern_compiles(pattern: Seq<char>) -> bool;

/// What `regex::escape` makes of `text`.
pub uninterp spec fn pattern_escaped(text: Seq<char>) -> Seq<char>;

/// Whether the regular expression that `regex::Regex::new` makes of
/// `pattern` matches somewhere in `text`, as `Regex::is_match` tells;
/// `false` where `pattern` is not accepted.
pub uninterp spec fn pattern_matches(pattern: Seq<char>, text: Seq<char>) -> bool;

/// What `str::to_lowercase` makes of `text`.
pub uninterp spec fn lowercased(text: Seq<char>) -> Seq<char>;

/// Whether `std::path::Path` holds the two paths equal, which it does where
/// they have the same components.
pub uninterp spec fn same_path(a: Seq<char>, b: Seq<char>) -> bool;

/// Calls `regex::Regex::new` and tells whether it accepted the pattern.
/// The contract names the result.
#[verifier::external_body]
fn regex_compiles(pattern: &str) -> (ok: bool)
    ensures
        ok == pattern_compiles(pattern@),
{
    regex::Regex::new(pattern).is_ok()
}

/// Calls `regex::escape`, which puts a backslash before every character of
/// `text` that has a meaning in a regular expression. The contract names
/// the result.
#[verifier::external_body]
fn regex_escape(text: &str) -> (escaped: String)
    ensures
        escaped@ == pattern_escaped(text@),
{
    regex::escape(text)
}

/// Compiles `pattern` with `regex::Regex::new` and calls `Regex::is_match`
/// on `text`. The contract names the result.
#[verifier::external_body]
fn regex_is_match(pattern: &str, text: &str) -> (found: bool)
    ensures
        found == pattern_matches(pattern@, text@),
{
    match regex::Regex::new(pattern) {
        Ok(re) => re.is_match(text),
        Err(_) => false,
    }
}

/// Calls `str::to_lowercase`. The contract names the result.
#[verifier::external_body]
fn to_lowercase(text: &str) -> (lower: String)
    ensures
        lower@ == lowercased(text@),
{
    text.to_lowercase()
}

/// Compares two paths as `std::path::Path` does. The contract names the
/// result.
#[verifier::external_body]
fn paths_equal(a: &str, b: &str) -> (equal: bool)
    ensures
        equal == same_path(a@, b@),
{
    Path::new(a) == Path::new(b)
}

/// Whether `text` starts with `prefix`.
pub open spec fn has_prefix(text: Seq<char>, prefix: Seq<char>) -> bool {
    prefix.len() <= text.len() && text.subrange(0, prefix.len() as int) == prefix
}

/// Whether `part` occurs somewhere in `text`.
pub open spec fn has_substring(text: Seq<char>, part: Seq<char>) -> bool {
    exists|i: int| 0 <= i <= text.len() - part.len() && #[trigger] text.subrange(
        i,
        i + part.len(),
    ) == part
}

/// The characters of `text`.
fn chars_of(text: &str) -> (chars: Vec<char>)
    ensures
        chars@ == text@,
{
    let n = text.unicode_len();
    let mut chars: Vec<char> = Vec::new();
    let mut i: usize = 0;
    while i < n
        invariant
            n == text@.len(),
            i <= n,
            chars@ == text@.take(i as int),
        decreases n - i,
    {
        chars.push(text.get_char(i));
        i += 1;
    }
    chars
}

/// Whether `part` stands in `text` at place `at`.
fn occurs_at(text: &Vec<char>, part: &Vec<char>, at: usize) -> (found: bool)
    requires
        at + part.len() <= text.len(),
    ensures
        found == (text@.subrange(at as int, at + part.len()) == part@),
{
    let mut j: usize = 0;
    while j < part.len()
        invariant
            j <= part.len(),
            at + part.len() <= text.len(),
            forall|k: int| 0 <= k < j ==> text@[at + k] == part@[k],
        decreases part.len() - j,
    {
        if text[at + j] != part[j] {
            return false;
        }
        j += 1;
    }
    proof {
        assert(text@.subrange(at as int, at + part.len()) =~= part@);
    }
    true
}

/// Tells whether `text` starts with `prefix`.
pub fn starts_with(text: &str, prefix: &str) -> (found: bool)
    ensures
        found == has_prefix(text@, prefix@),
{
    let text_chars = chars_of(text);
    let prefix_chars = chars_of(prefix);
    if prefix_chars.len() > text_chars.len() {
        return false;
    }
    occurs_at(&text_chars, &prefix_chars, 0)
}

/// Tells whether `part` occurs somewhere in `text`.
pub fn contains(text: &str, part: &str) -> (found: bool)
    ensures
        found == has_substring(text@, part@),
{
    let text_chars = chars_of(text);
    let part_chars = chars_of(part);
    if part_chars.len() > text_chars.len() {
        return false;
    }
    let last = text_chars.len() - part_chars.len();
    let mut i: usize = 0;
    loop
        invariant
            i <= last,
            last == text_chars.len() - part_chars.len(),
            part_chars.len() <= text_chars.len(),
            text_chars@ == text@,
            part_chars@ == part@,
            forall|k: int|
                0 <= k < i ==> #[trigger] text@.subrange(k, k + part@.len()) != part@,
        decreases last - i,
    {
        if occurs_at(&text_chars, &part_chars, i) {
            return true;
        }
        if i == last {
            return false;
        }
        i += 1;
    }
}

/// Whether an event reports that a key went down.
pub open spec fn is_press(event: InputEvent) -> bool {
    event.event_type == EV_KEY && event.value == KEY_PRESSED
}

/// The key event that a raw event gives rise to: a press of a key that
/// the outgoing map knows becomes an event with the mapped code; anything
/// else becomes nothing.
pub open spec fn captured(outgoing: Map<u16, u16>, event: InputEvent, client_id: Seq<char>) -> Option<
    KeyEventView,
> {
    if is_press(event) && outgoing.contains_key(event.code) {
        Some(KeyEventView { key: outgoing[event.code], client_id })
    } else {
        None
    }
}

/// The key events that a batch of raw events gives rise to, in order.
pub open spec fn captured_all(
    outgoing: Map<u16, u16>,
    events: Seq<InputEvent>,
    client_id: Seq<char>,
) -> Seq<KeyEventView>
    decreases events.len(),
{
    if events.len() == 0 {
        Seq::empty()
    } else {
        let before = captured_all(outgoing, events.drop_last(), client_id);
        match captured(outgoing, events.last(), client_id) {
            Some(event) => before.push(event),
            None => before,
        }
    }
}

/// Whether a selector selects the device with this path and name.
pub open spec fn selects(
    selector: DeviceSelectorView,
    path: Seq<char>,
    name: Option<Seq<char>>,
) -> bool {
    match selector {
        DeviceSelectorView::Path(p) => same_path(path, p),
        DeviceSelectorView::Regex(pattern) => match name {
            Some(name) => pattern_matches(pattern, name),
            None => false,
        },
    }
}

/// Whether one of the selectors selects the device.
pub open spec fn any_selects(
    selectors: Seq<DeviceSelectorView>,
    path: Seq<char>,
    name: Option<Seq<char>>,
) -> bool {
    exists|i: int| 0 <= i < selectors.len() && selects(#[trigger] selectors[i], path, name)
}

/// Whether a device looks like a keyboard: it supports one of a handful of
/// telling keys and buttons, or its name, in lower case, holds "keyboard"
/// or "kbd".
pub open spec fn looks_like_keyboard(device: DeviceInfoView) -> bool {
    ||| device.supported_keys.contains(KEY_A)
    ||| device.supported_keys.contains(KEY_SPACE)
    ||| device.supported_keys.contains(KEY_ENTER)
    ||| device.supported_keys.contains(BTN_SIDE)
    ||| device.supported_keys.contains(BTN_EXTRA)
    ||| (device.name matches Some(name) && (has_substring(lowercased(name), "keyboard"@)
        || has_substring(lowercased(name), "kbd"@)))
}

/// Whether a device is monitored: it looks like a keyboard, and one of the
/// selectors selects it, or there are no selectors.
pub open spec fn is_monitored(selectors: Seq<DeviceSelectorView>, device: DeviceInfoView) -> bool {
    looks_like_keyboard(device) && (selectors.len() == 0 || any_selects(
        selectors,
        device.path,
        device.name,
    ))
}

/// The places of the monitored devices among the first `n` candidates, in
/// ascending order.
pub open spec fn monitored_upto(
    selectors: Seq<DeviceSelectorView>,
    candidates: Seq<DeviceInfoView>,
    n: nat,
) -> Seq<usize>
    decreases n,
{
    if n == 0 {
        Seq::empty()
    } else {
        let before = monitored_upto(selectors, candidates, (n - 1) as nat);
        if is_monitored(selectors, candidates[n - 1]) {
            before.push((n - 1) as usize)
        } else {
            before
        }
    }
}

/// The selector that an entry of the device list stands for, given what
/// the regular-expression engine said of it: an entry that starts with a
/// slash is a path; another entry is a regular expression if it is
/// accepted as one, and else the expression that matches the entry taken
/// literally; where not even that is accepted there is no selector.
pub open spec fn selector_for(
    entry: Seq<char>,
    compiles: bool,
    escaped: Seq<char>,
    escaped_compiles: bool,
) -> Result<DeviceSelectorView, MonitorErrorView> {
    if has_prefix(entry, "/"@) {
        Ok(DeviceSelectorView::Path(entry))
    } else if compiles {
        Ok(DeviceSelectorView::Regex(entry))
    } else if escaped_compiles {
        Ok(DeviceSelectorView::Regex(escaped))
    } else {
        Err(MonitorErrorView::InvalidRegex(entry))
    }
}

/// The selector that an entry of the device list stands for.
pub open spec fn selector_of(entry: Seq<char>) -> Result<DeviceSelectorView, MonitorErrorView> {
    selector_for(
        entry,
        pattern_compiles(entry),
        pattern_escaped(entry),
        pattern_compiles(pattern_escaped(entry)),
    )
}

/// The selectors that the entries of a device list stand for, or the
/// error of the first entry that stands for none.
pub open spec fn selectors_of(entries: Seq<Seq<char>>) -> Result<
    Seq<DeviceSelectorView>,
    MonitorErrorView,
>
    decreases entries.len(),
{
    if entries.len() == 0 {
        Ok(Seq::empty())
    } else {
        match selectors_of(entries.drop_last()) {
            Err(e) => Err(e),
            Ok(before) => match selector_of(entries.last()) {
                Ok(selector) => Ok(before.push(selector)),
                Err(e) => Err(e),
            },
        }
    }
}

/// The selectors of a configuration: those of its device list, and none
/// where it has no list.
pub open spec fn configured_selectors(devices: Option<Seq<String>>) -> Result<
    Seq<DeviceSelectorView>,
    MonitorErrorView,
> {
    match devices {
        Some(entries) => selectors_of(string_views(entries)),
        None => Ok(Seq::empty()),
    }
}

/// The devices to monitor among `candidates`, by their places in
/// ascending order, under a configuration with this device list.
pub open spec fn selection(devices: Option<Seq<String>>, candidates: Seq<DeviceInfoView>) -> Result<
    Seq<usize>,
    MonitorErrorView,
> {
    match configured_selectors(devices) {
        Ok(selectors) => Ok(monitored_upto(selectors, candidates, candidates.len())),
        Err(e) => Err(e),
    }
}

/// The mathematical form of the result of making a selector.
pub open spec fn selector_result_view(r: Result<DeviceSelector, MonitorError>) -> Result<
    DeviceSelectorView,
    MonitorErrorView,
> {
    match r {
        Ok(selector) => Ok(selector@),
        Err(e) => Err(e@),
    }
}

/// The mathematical form of the result of making a list of selectors.
pub open spec fn selectors_result_view(r: Result<Vec<DeviceSelector>, MonitorError>) -> Result<
    Seq<DeviceSelectorView>,
    MonitorErrorView,
> {
    match r {
        Ok(selectors) => Ok(selector_views(selectors@)),
        Err(e) => Err(e@),
    }
}

/// The mathematical form of the result of selecting devices.
pub open spec fn selection_view(r: Result<Vec<usize>, MonitorError>) -> Result<
    Seq<usize>,
    MonitorErrorView,
> {
    match r {
        Ok(places) => Ok(places@),
        Err(e) => Err(e@),
    }
}

/// The views of a list of strings.
pub open spec fn string_views(items: Seq<String>) -> Seq<Seq<char>> {
    items.map_values(|s: String| s@)
}

/// The mathematical forms of a list of selectors.
pub open spec fn selector_views(selectors: Seq<DeviceSelector>) -> Seq<DeviceSelectorView> {
    selectors.map_values(|s: DeviceSelector| s@)
}

/// The mathematical forms of a list of devices.
pub open spec fn device_views(devices: Seq<DeviceInfo>) -> Seq<DeviceInfoView> {
    devices.map_values(|d: DeviceInfo| d@)
}

/// Makes the selector for an entry of the device list from what the
/// regular-expression engine said of the entry: whether it is accepted as
/// it stands, what it looks like taken literally, and whether that is
/// accepted.
pub fn choose_selector(entry: &str, compiles: bool, escaped: String, escaped_compiles: bool) -> (r:
    Result<DeviceSelector, MonitorError>)
    ensures
        selector_result_view(r) == selector_for(entry@, compiles, escaped@, escaped_compiles),
{
    if starts_with(entry, "/") {
        Ok(DeviceSelector::Path(entry.to_owned()))
    } else if compiles {
        Ok(DeviceSelector::Regex(entry.to_owned()))
    } else if escaped_compiles {
        Ok(DeviceSelector::Regex(escaped))
    } else {
        Err(MonitorError::InvalidRegex(entry.to_owned()))
    }
}

/// Makes the selector for an entry of the device list.
pub fn parse_selector(entry: &str) -> (r: Result<DeviceSelector, MonitorError>)
    ensures
        selector_result_view(r) == selector_of(entry@),
{
    let compiles = regex_compiles(entry);
    let escaped = regex_escape(entry);
    let escaped_compiles = regex_compiles(escaped.as_str());
    choose_selector(entry, compiles, escaped, escaped_compiles)
}

impl DeviceSelector {
    /// Tells whether the selector selects the device with this path and
    /// name. A path selects the device at that path; a regular expression
    /// selects the devices whose name it matches, and none without a name.
    pub fn matches(&self, device_path: &str, device_name: Option<&str>) -> (selected: bool)
        ensures
            selected == selects(
                self@,
                device_path@,
                match device_name {
                    Some(name) => Some(name@),
                    None => None,
                },
            ),
    {
        match self {
            DeviceSelector::Path(path) => paths_equal(device_path, path.as_str()),
            DeviceSelector::Regex(pattern) => match device_name {
                Some(name) => regex_is_match(pattern.as_str(), name),
                None => false,
            },
        }
    }
}

/// Whether `codes` holds `code`.
fn supports(codes: &Vec<u16>, code: u16) -> (found: bool)
    ensures
        found == codes@.contains(code),
{
    let mut i: usize = 0;
    while i < codes.len()
        invariant
            i <= codes.len(),
            forall|j: int| 0 <= j < i ==> codes@[j] != code,
        decreases codes.len() - i,
    {
        if codes[i] == code {
            return true;
        }
        i += 1;
    }
    false
}

/// The name of a device as a string slice.
fn name_of(info: &DeviceInfo) -> (name: Option<&str>)
    ensures
        match name {
            Some(n) => info@.name == Some(n@),
            None => info@.name is None,
        },
{
    match &info.name {
        Some(name) => Some(name.as_str()),
        None => None,
    }
}

/// Tells whether one of the selectors selects the device.
fn any_matches(selectors: &Vec<DeviceSelector>, info: &DeviceInfo) -> (selected: bool)
    ensures
        selected == any_selects(selector_views(selectors@), info@.path, info@.name),
{
    let name = name_of(info);
    let mut i: usize = 0;
    while i < selectors.len()
        invariant
            i <= selectors.len(),
            match name {
                Some(n) => info@.name == Some(n@),
                None => info@.name is None,
            },
            forall|j: int|
                0 <= j < i ==> !selects(
                    #[trigger] selector_views(selectors@)[j],
                    info@.path,
                    info@.name,
                ),
        decreases selectors.len() - i,
    {
        proof {
            assert(selector_views(selectors@)[i as int] == selectors@[i as int]@);
        }
        if selectors[i].matches(info.path.as_str(), name) {
            return true;
        }
        i += 1;
    }
    false
}

/// The places that are picked are exactly those of the monitored devices,
/// each once and in ascending order.
pub proof fn lemma_monitored_places(
    selectors: Seq<DeviceSelectorView>,
    candidates: Seq<DeviceInfoView>,
    n: nat,
)
    requires
        n <= candidates.len(),
        n <= usize::MAX,
    ensures
        forall|p: usize|
            #[trigger] monitored_upto(selectors, candidates, n).contains(p) <==> p < n
                && is_monitored(selectors, candidates[p as int]),
        forall|i: int, j: int|
            0 <= i < j < monitored_upto(selectors, candidates, n).len() ==> monitored_upto(
                selectors,
                candidates,
                n,
            )[i] < monitored_upto(selectors, candidates, n)[j],
    decreases n,
{
    let places = monitored_upto(selectors, candidates, n);
    if n > 0 {
        let before = monitored_upto(selectors, candidates, (n - 1) as nat);
        lemma_monitored_places(selectors, candidates, (n - 1) as nat);
        let here = (n - 1) as usize;
        assert forall|p: usize| #[trigger] places.contains(p) <==> p < n && is_monitored(
            selectors,
            candidates[p as int],
        ) by {
            if is_monitored(selectors, candidates[n - 1]) {
                assert(places == before.push(here));
                assert(places[places.len() - 1] == here);
                if before.contains(p) {
                    let k = choose|k: int| 0 <= k < before.len() && before[k] == p;
                    assert(places[k] == p);
                }
                if places.contains(p) {
                    let k = choose|k: int| 0 <= k < places.len() && places[k] == p;
                    if k < before.len() {
                        assert(before[k] == p);
                    }
                }
            }
        }
        assert forall|i: int, j: int| 0 <= i < j < places.len() implies places[i] < places[j] by {
            if is_monitored(selectors, candidates[n - 1]) && j == places.len() - 1 {
                assert(before.contains(before[i]));
            }
        }
    }
}

/// Once an entry has failed, a longer list fails with the same error.
proof fn lemma_first_error_stays(entries: Seq<Seq<char>>, n: int)
    requires
        0 <= n <= entries.len(),
        selectors_of(entries.take(n)) is Err,
    ensures
        selectors_of(entries) == selectors_of(entries.take(n)),
    decreases entries.len() - n,
{
    if n < entries.len() {
        let longer = entries.take(n + 1);
        assert(longer.drop_last() =~= entries.take(n));
        lemma_first_error_stays(entries, n + 1);
    } else {
        assert(entries.take(n) =~= entries);
    }
}

/// Captures keys for one client, from the devices that its configuration
/// selects.
pub struct KeyboardMonitor {
    config: KeySyncConfig,
    client_id: String,
}

impl KeyboardMonitor {
    /// The outgoing key map.
    pub closed spec fn outgoing(&self) -> Map<u16, u16> {
        self.config.outgoing@
    }

    /// The entries of the device list, if there is one.
    pub closed spec fn device_entries(&self) -> Option<Seq<String>> {
        match self.config.devices {
            Some(entries) => Some(entries@),
            None => None,
        }
    }

    /// The identifier that the captured events carry.
    pub closed spec fn origin(&self) -> Seq<char> {
        self.client_id@
    }

    /// A monitor for the client `client_id` with this configuration.
    pub fn new(config: KeySyncConfig, client_id: String) -> (monitor: KeyboardMonitor)
        ensures
            monitor.outgoing() == config.outgoing@,
            monitor.origin() == client_id@,
            monitor.device_entries() == match config.devices {
                Some(entries) => Some(entries@),
                None => None,
            },
    {
        KeyboardMonitor { config, client_id }
    }

    /// The selectors of the configuration, in the order of its device
    /// list. Fails on the first entry that is neither a path nor a regular
    /// expression, not even taken literally.
    pub fn selectors(&self) -> (r: Result<Vec<DeviceSelector>, MonitorError>)
        ensures
            selectors_result_view(r) == configured_selectors(self.device_entries()),
    {
        let mut selectors: Vec<DeviceSelector> = Vec::new();
        let entries = match &self.config.devices {
            Some(entries) => entries,
            None => {
                proof {
                    assert(selector_views(selectors@) =~= Seq::empty());
                }
                return Ok(selectors);
            },
        };
        let ghost names = string_views(entries@);
        let mut i: usize = 0;
        proof {
            assert(selector_views(selectors@) =~= Seq::empty());
        }
        while i < entries.len()
            invariant
                i <= entries.len(),
                self.device_entries() == Some(entries@),
                names == string_views(entries@),
                selectors_of(names.take(i as int)) == Ok::<
                    Seq<DeviceSelectorView>,
                    MonitorErrorView,
                >(selector_views(selectors@)),
            decreases entries.len() - i,
        {
            let ghost before = selector_views(selectors@);
            proof {
                let upto = names.take(i as int + 1);
                assert(upto.drop_last() =~= names.take(i as int));
            }
            match parse_selector(entries[i].as_str()) {
                Ok(selector) => {
                    let ghost view = selector@;
                    selectors.push(selector);
                    proof {
                        assert(selector_views(selectors@) =~= before.push(view));
                    }
                },
                Err(e) => {
                    proof {
                        lemma_first_error_stays(names, i as int + 1);
                    }
                    return Err(e);
                },
            }
            i += 1;
        }
        proof {
            assert(names.take(i as int) =~= names);
        }
        Ok(selectors)
    }

    /// Picks the devices to monitor among `candidates`: those that look
    /// like keyboards and that one of the configured selectors selects, or
    /// all that look like keyboards where no selector is configured.
    /// Returns their places in `candidates`, in ascending order. Fails only
    /// where the device list holds an entry that is no selector.
    pub fn find_keyboards(&self, candidates: &Vec<DeviceInfo>) -> (r: Result<
        Vec<usize>,
        MonitorError,
    >)
        ensures
            selection_view(r) == selection(self.device_entries(), device_views(candidates@)),
    {
        let selectors = match self.selectors() {
            Ok(selectors) => selectors,
            Err(e) => {
                return Err(e);
            },
        };
        let ghost rules = selector_views(selectors@);
        let ghost devices = device_views(candidates@);
        let mut places: Vec<usize> = Vec::new();
        let mut i: usize = 0;
        while i < candidates.len()
            invariant
                i <= candidates.len(),
                rules == selector_views(selectors@),
                devices == device_views(candidates@),
                places@ == monitored_upto(rules, devices, i as nat),
            decreases candidates.len() - i,
        {
            let info = &candidates[i];
            if Self::is_keyboard_device(info) && (selectors.len() == 0 || any_matches(
                &selectors,
                info,
            )) {
                places.push(i);
            }
            i += 1;
        }
        Ok(places)
    }

    /// Picks the devices to monitor, as
    /// [`find_keyboards`](Self::find_keyboards) does, and fails where there
    /// is none.
    pub fn start(&self, candidates: &Vec<DeviceInfo>) -> (r: Result<Vec<usize>, MonitorError>)
        ensures
            selection_view(r) == match selection(
                self.device_entries(),
                device_views(candidates@),
            ) {
                Ok(places) => if places.len() == 0 {
                    Err(MonitorErrorView::NoKeyboards)
                } else {
                    Ok(places)
                },
                Err(e) => Err(e),
            },
    {
        let keyboards = match self.find_keyboards(candidates) {
            Ok(keyboards) => keyboards,
            Err(e) => {
                return Err(e);
            },
        };
        if keyboards.len() == 0 {
            return Err(MonitorError::NoKeyboards);
        }
        Ok(keyboards)
    }

    /// Tells whether a file of the input directory is an event device, by
    /// the name of the file: it is one if the name starts with "event".
    /// A file without a readable name is none.
    pub fn is_event_device(file_name: Option<&str>) -> (event_device: bool)
        ensures
            event_device == match file_name {
                Some(name) => has_prefix(name@, "event"@),
                None => false,
            },
    {
        match file_name {
            Some(name) => starts_with(name, "event"),
            None => false,
        }
    }

    /// Tells whether a device looks like a keyboard.
    pub fn is_keyboard_device(info: &DeviceInfo) -> (keyboard: bool)
        ensures
            keyboard == looks_like_keyboard(info@),
    {
        if supports(&info.supported_keys, KEY_A) || supports(&info.supported_keys, KEY_SPACE)
            || supports(&info.supported_keys, KEY_ENTER) || supports(
            &info.supported_keys,
            BTN_SIDE,
        ) || supports(&info.supported_keys, BTN_EXTRA) {
            return true;
        }
        match name_of(info) {
            Some(name) => {
                let lower = to_lowercase(name);
                contains(lower.as_str(), "keyboard") || contains(lower.as_str(), "kbd")
            },
            None => false,
        }
    }

    /// Turns a raw event into the key event to send, if it gives rise to
    /// one. A press of a key that the outgoing map knows becomes an event
    /// with the mapped code and this origin. Releases, repeats, events of
    /// other types and keys without an entry in the map become nothing.
    pub fn process_key_event(outgoing_map: &KeyCodeMap, event: InputEvent, client_id: &str) -> (out:
        Option<KeyEvent>)
        ensures
            match out {
                Some(key_event) => captured(outgoing_map@, event, client_id@) == Some(key_event@),
                None => captured(outgoing_map@, event, client_id@) is None,
            },
            !outgoing_map@.contains_key(event.code) ==> out is None,
    {
        if event.event_type != EV_KEY || event.value != KEY_PRESSED {
            return None;
        }
        match outgoing_map.get(&event.code) {
            Some(mapped) => Some(KeyEvent { key: *mapped, client_id: client_id.to_owned() }),
            None => None,
        }
    }

    /// Turns a batch of raw events of one device into the key events to
    /// send, in the order of the batch.
    pub fn process_events(&self, events: &Vec<InputEvent>) -> (out: Vec<KeyEvent>)
        ensures
            event_views(out@) == captured_all(self.outgoing(), events@, self.origin()),
    {
        let mut out: Vec<KeyEvent> = Vec::new();
        let mut i: usize = 0;
        while i < events.len()
            invariant
                i <= events.len(),
                event_views(out@) == captured_all(
                    self.outgoing(),
                    events@.take(i as int),
                    self.origin(),
                ),
            decreases events.len() - i,
        {
            proof {
                let upto = events@.take(i as int + 1);
                assert(upto.drop_last() =~= events@.take(i as int));
            }
            match Self::process_key_event(&self.config.outgoing, events[i], self.client_id.as_str()) {
                Some(key_event) => {
                    out.push(key_event);
                },
                None => {},
            }
            i += 1;
        }
        proof {
            assert(events@.take(i as int) =~= events@);
        }
        out
    }
}

} // verus!
