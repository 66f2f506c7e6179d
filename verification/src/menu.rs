//! What the tray shows and what its items do: the menu's contents as plain
//! values, the ids its items carry, and the command each id stands for.
use vstd::prelude::*;
use vstd::string::*;

use crate::config::{Config, InputSource};
use crate::text::{decimal, hex2, lemma_parse_decimal, parse_usize, parse_usize_text, push_decimal, push_hex2, strip_prefix, text_eq};

verus! {

/// A checkable item of the tray menu.
#[derive(Debug)]
pub struct CheckEntry {
    /// The id the menu reports when the item is clicked.
    pub id: String,
    pub label: String,
    pub enabled: bool,
    pub checked: bool,
}

/// One item of the tray menu, in the order the menu shows them.
#[derive(Debug)]
pub enum TrayItem {
    Separator,
    /// A text item; a disabled one only shows information.
    Plain { id: String, label: String, enabled: bool },
    Check(CheckEntry),
    /// A submenu of checkable items.
    Submenu { label: String, enabled: bool, items: Vec<CheckEntry> },
}

/// The tray dropdown: a status line, one entry per configured input (checked
/// if it is the active one), the "Cycle Inputs" submenu, the hotkey line and
/// the "Set Hotkey…", reload, open-config, open-at-login and quit items, with
/// separators between the groups.
#[derive(Debug)]
pub struct MenuModel {
    pub items: Vec<TrayItem>,
}

/// What the status line of the tray menu shows besides the current input:
/// the last monitor error, if any.
#[derive(Debug)]
pub struct MonitorStatus {
    pub error: Option<String>,
}

/// What a click on a menu item asks for.
#[derive(Debug, PartialEq, Eq, Structural)]
pub enum MenuCommand {
    Quit,
    Rescan,
    OpenConfig,
    ToggleOpenAtLogin,
    SetHotkey,
    /// Switch the monitor to the configured input at this index.
    SelectInput(usize),
    /// Flip whether the configured input at this index is in the hotkey's cycle.
    ToggleCycle(usize),
    /// An item that does nothing when clicked (the status and hotkey lines).
    Ignore,
}

/// What the key-capture window does with a key press.
#[derive(Debug, PartialEq, Eq, Structural)]
pub enum CaptureStep {
    /// Escape: close the window and keep the old hotkey.
    Cancel,
    /// A modifier key alone, or a key the hotkey crate has no code for: keep waiting.
    Ignore,
    /// A key without any modifier held: refused, keep waiting.
    NeedModifier,
    /// Take the key with the held modifiers as the new hotkey.
    Accept,
}

pub open spec fn input_item_id(index: nat) -> Seq<char> {
    "input:"@ + decimal(index)
}

pub open spec fn toggle_item_id(index: nat) -> Seq<char> {
    "toggle:"@ + decimal(index)
}

/// The index in an item id made of `prefix` and a decimal number.
pub open spec fn parse_item_id(prefix: Seq<char>, id: Seq<char>) -> Option<usize> {
    if prefix.is_prefix_of(id) {
        parse_usize_text(id.skip(prefix.len() as int))
    } else {
        None
    }
}

/// The first index at or after `i` of an input with this code.
pub open spec fn input_position_from(inputs: Seq<InputSource>, code: u16, i: int) -> Option<int>
    decreases inputs.len() - i,
{
    if i < 0 || i >= inputs.len() {
        None
    } else if inputs[i].code == code {
        Some(i)
    } else {
        input_position_from(inputs, code, i + 1)
    }
}

/// How the status line names an input code: the first configured input with
/// that code, or "Unknown (0x..)" with the code in two-digit hexadecimal.
pub open spec fn input_label(inputs: Seq<InputSource>, code: u16) -> Seq<char> {
    match input_position_from(inputs, code, 0) {
        Some(i) => inputs[i].name@,
        None => "Unknown (0x"@ + hex2(code as nat) + ")"@,
    }
}

/// The menu's status line: the monitor error if there is one, else the
/// current input, else "unknown".
pub open spec fn status_text(
    inputs: Seq<InputSource>,
    current: Option<u16>,
    error: Option<Seq<char>>,
) -> Seq<char> {
    match error {
        Some(e) => "⚠ "@ + e,
        None => match current {
            Some(code) => "Current: "@ + input_label(inputs, code),
            None => "Current: unknown"@,
        },
    }
}

pub open spec fn is_check(e: CheckEntry, id: Seq<char>, label: Seq<char>, enabled: bool, checked: bool) -> bool {
    &&& e.id@ == id
    &&& e.label@ == label
    &&& e.enabled == enabled
    &&& e.checked == checked
}

pub open spec fn is_check_item(
    item: TrayItem,
    id: Seq<char>,
    label: Seq<char>,
    enabled: bool,
    checked: bool,
) -> bool {
    item matches TrayItem::Check(e) && is_check(e, id, label, enabled, checked)
}

pub open spec fn is_plain(item: TrayItem, id: Seq<char>, label: Seq<char>, enabled: bool) -> bool {
    item matches TrayItem::Plain { id: i, label: l, enabled: e } && i@ == id && l@ == label && e
        == enabled
}

/// The enabled "Cycle Inputs" submenu: for each input, in order, an enabled
/// item "toggle:<index>" named after it and checked when it is in the cycle.
pub open spec fn is_cycle_submenu(item: TrayItem, inputs: Seq<InputSource>) -> bool {
    item matches TrayItem::Submenu { label, enabled, items } && label@ == "Cycle Inputs"@
        && enabled && items@.len() == inputs.len() && forall|j: int|
        0 <= j < inputs.len() ==> is_check(
            #[trigger] items@[j],
            toggle_item_id(j as nat),
            inputs[j].name@,
            true,
            inputs[j].enabled,
        )
}

pub open spec fn command_for(id: Seq<char>) -> MenuCommand {
    if id == "quit"@ {
        MenuCommand::Quit
    } else if id == "rescan"@ {
        MenuCommand::Rescan
    } else if id == "open_config"@ {
        MenuCommand::OpenConfig
    } else if id == "open_at_login"@ {
        MenuCommand::ToggleOpenAtLogin
    } else if id == "set_hotkey"@ {
        MenuCommand::SetHotkey
    } else if let Some(i) = parse_item_id("input:"@, id) {
        MenuCommand::SelectInput(i)
    } else if let Some(i) = parse_item_id("toggle:"@, id) {
        MenuCommand::ToggleCycle(i)
    } else {
        MenuCommand::Ignore
    }
}

pub open spec fn tooltip(monitor_name: Option<Seq<char>>) -> Seq<char> {
    match monitor_name {
        Some(name) => "AW Switcher — "@ + name,
        None => "AW Switcher — no monitor found"@,
    }
}

fn item_id(prefix: &str, index: usize) -> (r: String)
    ensures
        r@ == prefix@ + decimal(index as nat),
{
    let mut r = String::from_str(prefix);
    push_decimal(&mut r, index);
    r
}

/// The id of the menu item that switches to the input at `index`.
pub fn input_id(index: usize) -> (r: String)
    ensures
        r@ == input_item_id(index as nat),
{
    item_id("input:", index)
}

/// The id of the "Cycle Inputs" item for the input at `index`.
pub fn toggle_id(index: usize) -> (r: String)
    ensures
        r@ == toggle_item_id(index as nat),
{
    item_id("toggle:", index)
}

fn parse_with_prefix(id: &str, prefix: &str) -> (r: Option<usize>)
    ensures
        r == parse_item_id(prefix@, id@),
{
    match strip_prefix(id, prefix) {
        Some(rest) => parse_usize(rest),
        None => None,
    }
}

/// The input index in an "input:<n>" item id.
pub fn parse_input_id(id: &str) -> (r: Option<usize>)
    ensures
        r == parse_item_id("input:"@, id@),
{
    parse_with_prefix(id, "input:")
}

/// The input index in a "toggle:<n>" item id.
pub fn parse_toggle_id(id: &str) -> (r: Option<usize>)
    ensures
        r == parse_item_id("toggle:"@, id@),
{
    parse_with_prefix(id, "toggle:")
}

/// The command that a click on the menu item with this id stands for.
pub fn menu_command(id: &str) -> (r: MenuCommand)
    ensures
        r == command_for(id@),
{
    if text_eq(id, "quit") {
        MenuCommand::Quit
    } else if text_eq(id, "rescan") {
        MenuCommand::Rescan
    } else if text_eq(id, "open_config") {
        MenuCommand::OpenConfig
    } else if text_eq(id, "open_at_login") {
        MenuCommand::ToggleOpenAtLogin
    } else if text_eq(id, "set_hotkey") {
        MenuCommand::SetHotkey
    } else if let Some(i) = parse_input_id(id) {
        MenuCommand::SelectInput(i)
    } else if let Some(i) = parse_toggle_id(id) {
        MenuCommand::ToggleCycle(i)
    } else {
        MenuCommand::Ignore
    }
}

fn input_name_for(inputs: &Vec<InputSource>, code: u16) -> (r: String)
    ensures
        r@ == input_label(inputs@, code),
{
    let mut i: usize = 0;
    while i < inputs.len()
        invariant
            i <= inputs@.len(),
            input_position_from(inputs@, code, 0) == input_position_from(inputs@, code, i as int),
        decreases inputs.len() - i,
    {
        if inputs[i].code == code {
            assert(input_position_from(inputs@, code, i as int) == Some(i as int));
            return inputs[i].name.clone();
        }
        i = i + 1;
    }
    let mut r = String::from_str("Unknown (0x");
    push_hex2(&mut r, code);
    r.append(")");
    r
}

/// The status line of the menu.
pub fn status_line(config: &Config, current: Option<u16>, monitor_error: Option<&str>) -> (r:
    String)
    ensures
        r@ == status_text(
            config.inputs@,
            current,
            match monitor_error {
                Some(e) => Some(e@),
                None => None,
            },
        ),
{
    match monitor_error {
        Some(err) => {
            let mut r = String::from_str("⚠ ");
            r.append(err);
            r
        },
        None => match current {
            Some(code) => {
                let mut r = String::from_str("Current: ");
                let name = input_name_for(&config.inputs, code);
                r.append(name.as_str());
                r
            },
            None => String::from_str("Current: unknown"),
        },
    }
}

fn plain(id: &str, label: &str, enabled: bool) -> (r: TrayItem)
    ensures
        is_plain(r, id@, label@, enabled),
{
    TrayItem::Plain { id: String::from_str(id), label: String::from_str(label), enabled }
}

/// Builds the tray dropdown for this config, the current input (if it could
/// be read) and the monitor error (if any). With n configured inputs it holds
/// 13 + n items in this order: the disabled status line "status"; a separator;
/// the items "input:0" .. "input:<n-1>", each enabled (inputs outside the
/// hotkey's cycle too) and checked when it is the current input; a separator;
/// the "Cycle Inputs" submenu with "toggle:0" .. "toggle:<n-1>", checked when
/// the input is in the cycle; a separator; the disabled hotkey line
/// "hotkey_status" and "set_hotkey"; a separator; "rescan", "open_config" and
/// the "open_at_login" checkbox; a separator; and "quit".
pub fn build_menu(config: &Config, current: Option<u16>, monitor_error: Option<&str>) -> (m:
    MenuModel)
    ensures
        ({
            let n = config.inputs@.len() as int;
            let items = m.items@;
            &&& items.len() == 13 + n
            &&& is_plain(
                items[0],
                "status"@,
                status_text(
                    config.inputs@,
                    current,
                    match monitor_error {
                        Some(e) => Some(e@),
                        None => None,
                    },
                ),
                false,
            )
            &&& items[1] is Separator
            &&& forall|j: int|
                2 <= j < 2 + n ==> is_check_item(
                    #[trigger] items[j],
                    input_item_id((j - 2) as nat),
                    config.inputs@[j - 2].name@,
                    true,
                    current == Some(config.inputs@[j - 2].code),
                )
            &&& items[2 + n] is Separator
            &&& is_cycle_submenu(items[3 + n], config.inputs@)
            &&& items[4 + n] is Separator
            &&& is_plain(items[5 + n], "hotkey_status"@, "Hotkey: "@ + config.hotkey@, false)
            &&& is_plain(items[6 + n], "set_hotkey"@, "Set Hotkey…"@, true)
            &&& items[7 + n] is Separator
            &&& is_plain(items[8 + n], "rescan"@, "Reload Config && Rescan Monitor"@, true)
            &&& is_plain(items[9 + n], "open_config"@, "Open Config File"@, true)
            &&& is_check_item(
                items[10 + n],
                "open_at_login"@,
                "Open at Login"@,
                true,
                config.open_at_login,
            )
            &&& items[11 + n] is Separator
            &&& is_plain(items[12 + n], "quit"@, "Quit"@, true)
        }),
{
    let ghost n = config.inputs@.len() as int;
    let mut cycle: Vec<CheckEntry> = Vec::new();
    let mut i: usize = 0;
    while i < config.inputs.len()
        invariant
            i <= config.inputs@.len(),
            cycle@.len() == i,
            forall|j: int|
                0 <= j < i ==> is_check(
                    #[trigger] cycle@[j],
                    toggle_item_id(j as nat),
                    config.inputs@[j].name@,
                    true,
                    config.inputs@[j].enabled,
                ),
        decreases config.inputs.len() - i,
    {
        let input = &config.inputs[i];
        cycle.push(
            CheckEntry {
                id: toggle_id(i),
                label: input.name.clone(),
                enabled: true,
                checked: input.enabled,
            },
        );
        i = i + 1;
    }

    let mut items: Vec<TrayItem> = Vec::new();
    let status = status_line(config, current, monitor_error);
    items.push(TrayItem::Plain { id: String::from_str("status"), label: status, enabled: false });
    items.push(TrayItem::Separator);
    let mut i: usize = 0;
    while i < config.inputs.len()
        invariant
            n == config.inputs@.len(),
            i <= n,
            items@.len() == 2 + i,
            is_plain(
                items@[0],
                "status"@,
                status_text(
                    config.inputs@,
                    current,
                    match monitor_error {
                        Some(e) => Some(e@),
                        None => None,
                    },
                ),
                false,
            ),
            items@[1] is Separator,
            forall|j: int|
                2 <= j < 2 + i ==> is_check_item(
                    #[trigger] items@[j],
                    input_item_id((j - 2) as nat),
                    config.inputs@[j - 2].name@,
                    true,
                    current == Some(config.inputs@[j - 2].code),
                ),
        decreases config.inputs.len() - i,
    {
        let input = &config.inputs[i];
        let checked = match current {
            Some(code) => code == input.code,
            None => false,
        };
        items.push(
            TrayItem::Check(
                CheckEntry { id: input_id(i), label: input.name.clone(), enabled: true, checked },
            ),
        );
        i = i + 1;
    }
    items.push(TrayItem::Separator);
    items.push(TrayItem::Submenu { label: String::from_str("Cycle Inputs"), enabled: true, items: cycle });
    items.push(TrayItem::Separator);
    let mut hotkey_label = String::from_str("Hotkey: ");
    hotkey_label.append(config.hotkey.as_str());
    items.push(TrayItem::Plain { id: String::from_str("hotkey_status"), label: hotkey_label, enabled: false });
    items.push(plain("set_hotkey", "Set Hotkey…", true));
    items.push(TrayItem::Separator);
    items.push(plain("rescan", "Reload Config && Rescan Monitor", true));
    items.push(plain("open_config", "Open Config File", true));
    items.push(
        TrayItem::Check(
            CheckEntry {
                id: String::from_str("open_at_login"),
                label: String::from_str("Open at Login"),
                enabled: true,
                checked: config.open_at_login,
            },
        ),
    );
    items.push(TrayItem::Separator);
    items.push(plain("quit", "Quit", true));
    MenuModel { items }
}

/// The tray icon's tooltip, naming the monitor when one was found.
pub fn tooltip_text(monitor_name: Option<&str>) -> (r: String)
    ensures
        r@ == tooltip(
            match monitor_name {
                Some(n) => Some(n@),
                None => None,
            },
        ),
{
    match monitor_name {
        Some(name) => {
            let mut r = String::from_str("AW Switcher — ");
            r.append(name);
            r
        },
        None => String::from_str("AW Switcher — no monitor found"),
    }
}

/// The names of the physical keys that only modify others (the key-code
/// names of the UI Events `KeyboardEvent.code` list).
pub open spec fn is_modifier_name(name: Seq<char>) -> bool {
    ||| name == "ShiftLeft"@
    ||| name == "ShiftRight"@
    ||| name == "ControlLeft"@
    ||| name == "ControlRight"@
    ||| name == "AltLeft"@
    ||| name == "AltRight"@
    ||| name == "SuperLeft"@
    ||| name == "SuperRight"@
    ||| name == "CapsLock"@
    ||| name == "NumLock"@
    ||| name == "ScrollLock"@
    ||| name == "Fn"@
    ||| name == "FnLock"@
}

/// What the capture window does with the pressed key of this key-code name.
pub open spec fn capture_outcome(name: Seq<char>, has_code: bool, has_modifiers: bool) -> CaptureStep {
    if name == "Escape"@ {
        CaptureStep::Cancel
    } else if is_modifier_name(name) || !has_code {
        CaptureStep::Ignore
    } else if !has_modifiers {
        CaptureStep::NeedModifier
    } else {
        CaptureStep::Accept
    }
}

/// Whether the physical key with this key-code name is a modifier or lock key.
pub fn is_modifier_key_name(name: &str) -> (r: bool)
    ensures
        r == is_modifier_name(name@),
{
    text_eq(name, "ShiftLeft") || text_eq(name, "ShiftRight") || text_eq(name, "ControlLeft")
        || text_eq(name, "ControlRight") || text_eq(name, "AltLeft") || text_eq(name, "AltRight")
        || text_eq(name, "SuperLeft") || text_eq(name, "SuperRight") || text_eq(name, "CapsLock")
        || text_eq(name, "NumLock") || text_eq(name, "ScrollLock") || text_eq(name, "Fn")
        || text_eq(name, "FnLock")
}

/// Decides what the key-capture window does with the pressed physical key of
/// this key-code name: Escape cancels, a modifier key or a key without a hotkey
/// code is passed over, a key without any modifier held is refused, and
/// anything else is taken.
pub fn capture_step(key_name: &str, has_code: bool, has_modifiers: bool) -> (r: CaptureStep)
    ensures
        r == capture_outcome(key_name@, has_code, has_modifiers),
        r == (if key_name@ == "Escape"@ {
            CaptureStep::Cancel
        } else if is_modifier_name(key_name@) || !has_code {
            CaptureStep::Ignore
        } else if !has_modifiers {
            CaptureStep::NeedModifier
        } else {
            CaptureStep::Accept
        }),
{
    if text_eq(key_name, "Escape") {
        CaptureStep::Cancel
    } else if is_modifier_key_name(key_name) || !has_code {
        CaptureStep::Ignore
    } else if !has_modifiers {
        CaptureStep::NeedModifier
    } else {
        CaptureStep::Accept
    }
}

/// What happens around the key-capture window.
#[derive(Debug)]
pub enum CaptureEvent {
    /// The "Set Hotkey…" item was clicked.
    SetHotkeyChosen,
    /// A key was pressed in the capture window, with this verdict of `capture_step`.
    Key(CaptureStep),
    /// The capture window is being closed.
    CloseRequested,
}

/// What to do in response to a capture event, in this order: warn that a
/// modifier is needed; store the captured key, with the held modifiers, as the
/// configured hotkey (and save and show the config); unregister the hotkey
/// that is registered; register the configured hotkey; close the window; open
/// it (with no modifiers held yet). `window_open` is whether the window is
/// open afterwards.
#[derive(Debug, PartialEq, Eq, Structural)]
pub struct CaptureActions {
    pub warn_need_modifier: bool,
    pub store_new_hotkey: bool,
    pub unregister_hotkey: bool,
    pub register_configured: bool,
    pub close_window: bool,
    pub open_window: bool,
    pub window_open: bool,
}

pub open spec fn no_capture_actions(window_open: bool) -> CaptureActions {
    CaptureActions {
        warn_need_modifier: false,
        store_new_hotkey: false,
        unregister_hotkey: false,
        register_configured: false,
        close_window: false,
        open_window: false,
        window_open,
    }
}

/// The capture window's behaviour. Choosing "Set Hotkey…" opens the window
/// and unregisters the current hotkey, so that pressing it reaches the window
/// (nothing happens while the window is already open). In the open window,
/// Escape or closing it registers the configured hotkey again and closes it;
/// an accepted key becomes the configured hotkey, which is then registered,
/// and closes the window; a key without modifiers only warns; other keys do
/// nothing. Key and close events while no capture window is open do nothing.
pub open spec fn capture_actions(window_open: bool, event: CaptureEvent) -> CaptureActions {
    match event {
        CaptureEvent::SetHotkeyChosen => if window_open {
            no_capture_actions(true)
        } else {
            CaptureActions {
                unregister_hotkey: true,
                open_window: true,
                window_open: true,
                ..no_capture_actions(true)
            }
        },
        CaptureEvent::Key(step) => if !window_open {
            no_capture_actions(false)
        } else {
            match step {
                CaptureStep::Cancel => CaptureActions {
                    register_configured: true,
                    close_window: true,
                    ..no_capture_actions(false)
                },
                CaptureStep::Ignore => no_capture_actions(true),
                CaptureStep::NeedModifier => CaptureActions {
                    warn_need_modifier: true,
                    ..no_capture_actions(true)
                },
                CaptureStep::Accept => CaptureActions {
                    store_new_hotkey: true,
                    register_configured: true,
                    close_window: true,
                    ..no_capture_actions(false)
                },
            }
        },
        CaptureEvent::CloseRequested => if !window_open {
            no_capture_actions(false)
        } else {
            CaptureActions {
                register_configured: true,
                close_window: true,
                ..no_capture_actions(false)
            }
        },
    }
}

fn none_but(window_open: bool) -> (r: CaptureActions)
    ensures
        r == no_capture_actions(window_open),
{
    CaptureActions {
        warn_need_modifier: false,
        store_new_hotkey: false,
        unregister_hotkey: false,
        register_configured: false,
        close_window: false,
        open_window: false,
        window_open,
    }
}

/// The actions a capture event calls for, given whether the capture window is open.
pub fn capture_transition(window_open: bool, event: CaptureEvent) -> (r: CaptureActions)
    ensures
        r == capture_actions(window_open, event),
{
    match event {
        CaptureEvent::SetHotkeyChosen => {
            if window_open {
                none_but(true)
            } else {
                let mut r = none_but(true);
                r.unregister_hotkey = true;
                r.open_window = true;
                r
            }
        },
        CaptureEvent::Key(step) => {
            if !window_open {
                none_but(false)
            } else {
                match step {
                    CaptureStep::Cancel => {
                        let mut r = none_but(false);
                        r.register_configured = true;
                        r.close_window = true;
                        r
                    },
                    CaptureStep::Ignore => none_but(true),
                    CaptureStep::NeedModifier => {
                        let mut r = none_but(true);
                        r.warn_need_modifier = true;
                        r
                    },
                    CaptureStep::Accept => {
                        let mut r = none_but(false);
                        r.store_new_hotkey = true;
                        r.register_configured = true;
                        r.close_window = true;
                        r
                    },
                }
            }
        },
        CaptureEvent::CloseRequested => {
            if !window_open {
                none_but(false)
            } else {
                let mut r = none_but(false);
                r.register_configured = true;
                r.close_window = true;
                r
            }
        },
    }
}

/// The global hotkey is off exactly while the capture window is open: opening
/// the window unregisters it, every way of closing the window registers the
/// configured hotkey (the newly stored one after an accepted key), and a new
/// hotkey is stored only from a key accepted in the open window.
pub proof fn lemma_capture_keeps_hotkey_registered(window_open: bool, event: CaptureEvent)
    ensures
        ({
            let r = capture_actions(window_open, event);
            &&& r.open_window ==> !window_open && r.unregister_hotkey && r.window_open
            &&& r.unregister_hotkey ==> r.open_window
            &&& (window_open && !r.window_open) ==> r.close_window && r.register_configured
            &&& r.register_configured ==> window_open && !r.window_open
            &&& r.store_new_hotkey ==> window_open && event == CaptureEvent::Key(
                CaptureStep::Accept,
            ) && r.register_configured
            &&& (!window_open && r.window_open) ==> r.open_window
        }),
{
}

impl MonitorStatus {
    /// The status at start-up: an error when no monitor was found.
    pub fn initial(found: bool) -> (r: Self)
        ensures
            found ==> r.error is None,
            !found ==> (r.error matches Some(e) && e@ == "No monitor found"@),
    {
        if found {
            MonitorStatus { error: None }
        } else {
            MonitorStatus { error: Some(String::from_str("No monitor found")) }
        }
    }

    /// Takes in the outcome of reading the current input, when there is a
    /// monitor to read from, and returns the current input: a failed read
    /// becomes the error; a successful one, or no monitor, leaves it as it is.
    pub fn after_read(&mut self, read: Option<Result<u16, String>>) -> (current: Option<u16>)
        ensures
            match read {
                Some(Ok(code)) => current == Some(code) && final(self).error == old(self).error,
                Some(Err(e)) => current is None && final(self).error == Some(e),
                None => current is None && final(self).error == old(self).error,
            },
    {
        match read {
            Some(Ok(code)) => Some(code),
            Some(Err(e)) => {
                self.error = Some(e);
                None
            },
            None => None,
        }
    }

    /// Takes in the outcome of switching the input or of looking for the
    /// monitor again: success clears the error, failure becomes it.
    pub fn after_action(&mut self, outcome: Result<(), String>)
        ensures
            match outcome {
                Ok(()) => final(self).error is None,
                Err(e) => final(self).error == Some(e),
            },
    {
        match outcome {
            Ok(()) => {
                self.error = None;
            },
            Err(e) => {
                self.error = Some(e);
            },
        }
    }

    /// The error as text, for the status line.
    pub fn error_text(&self) -> (r: Option<&str>)
        ensures
            match self.error {
                Some(e) => (r matches Some(t) && t@ == e@),
                None => r is None,
            },
    {
        match &self.error {
            Some(e) => Some(e.as_str()),
            None => None,
        }
    }
}

proof fn lemma_prefixed_id(prefix: Seq<char>, n: usize)
    ensures
        parse_item_id(prefix, prefix + decimal(n as nat)) == Some(n),
{
    let id = prefix + decimal(n as nat);
    assert(prefix.is_prefix_of(id)) by {
        assert(id.subrange(0, prefix.len() as int) =~= prefix);
    }
    assert(id.skip(prefix.len() as int) =~= decimal(n as nat));
    lemma_parse_decimal(n);
}

/// Lengths and first characters of the key-code names the capture window
/// treats specially.
#[verifier::spinoff_prover]
proof fn lemma_key_literals()
    ensures
        "Escape"@.len() == 6 && "Escape"@[0] == 'E',
        "ShiftLeft"@.len() == 9 && "ShiftLeft"@[0] == 'S',
        "ShiftRight"@.len() == 10 && "ShiftRight"@[0] == 'S',
        "ControlLeft"@.len() == 11 && "ControlLeft"@[0] == 'C',
        "ControlRight"@.len() == 12 && "ControlRight"@[0] == 'C',
        "AltLeft"@.len() == 7 && "AltLeft"@[0] == 'A',
        "AltRight"@.len() == 8 && "AltRight"@[0] == 'A',
        "SuperLeft"@.len() == 9 && "SuperLeft"@[0] == 'S',
        "SuperRight"@.len() == 10 && "SuperRight"@[0] == 'S',
        "CapsLock"@.len() == 8 && "CapsLock"@[0] == 'C',
        "NumLock"@.len() == 7 && "NumLock"@[0] == 'N',
        "ScrollLock"@.len() == 10 && "ScrollLock"@[0] == 'S',
        "Fn"@.len() == 2 && "Fn"@[0] == 'F',
        "FnLock"@.len() == 6 && "FnLock"@[0] == 'F',
{
    reveal_strlit("Escape");
    reveal_strlit("ShiftLeft");
    reveal_strlit("ShiftRight");
    reveal_strlit("ControlLeft");
    reveal_strlit("ControlRight");
    reveal_strlit("AltLeft");
    reveal_strlit("AltRight");
    reveal_strlit("SuperLeft");
    reveal_strlit("SuperRight");
    reveal_strlit("CapsLock");
    reveal_strlit("NumLock");
    reveal_strlit("ScrollLock");
    reveal_strlit("Fn");
    reveal_strlit("FnLock");
}

/// Any key other than Escape and the thirteen modifier and lock keys (Shift,
/// Control, Alt, Super, left and right; Caps Lock, Num Lock, Scroll Lock, Fn,
/// Fn Lock) is taken as the new hotkey when it has a hotkey code and a
/// modifier is held, refused without a modifier, and passed over without a code.
pub proof fn lemma_capture_takes_other_keys(name: Seq<char>, has_modifiers: bool)
    requires
        name != "Escape"@,
        name != "ShiftLeft"@,
        name != "ShiftRight"@,
        name != "ControlLeft"@,
        name != "ControlRight"@,
        name != "AltLeft"@,
        name != "AltRight"@,
        name != "SuperLeft"@,
        name != "SuperRight"@,
        name != "CapsLock"@,
        name != "NumLock"@,
        name != "ScrollLock"@,
        name != "Fn"@,
        name != "FnLock"@,
    ensures
        capture_outcome(name, true, true) == CaptureStep::Accept,
        capture_outcome(name, true, false) == CaptureStep::NeedModifier,
        capture_outcome(name, false, has_modifiers) == CaptureStep::Ignore,
{
}

/// Escape always cancels, and the thirteen modifier and lock keys are always
/// passed over, whatever else holds.
pub proof fn lemma_capture_special_keys(has_code: bool, has_modifiers: bool)
    ensures
        capture_outcome("Escape"@, has_code, has_modifiers) == CaptureStep::Cancel,
        capture_outcome("ShiftLeft"@, has_code, has_modifiers) == CaptureStep::Ignore,
        capture_outcome("ShiftRight"@, has_code, has_modifiers) == CaptureStep::Ignore,
        capture_outcome("ControlLeft"@, has_code, has_modifiers) == CaptureStep::Ignore,
        capture_outcome("ControlRight"@, has_code, has_modifiers) == CaptureStep::Ignore,
        capture_outcome("AltLeft"@, has_code, has_modifiers) == CaptureStep::Ignore,
        capture_outcome("AltRight"@, has_code, has_modifiers) == CaptureStep::Ignore,
        capture_outcome("SuperLeft"@, has_code, has_modifiers) == CaptureStep::Ignore,
        capture_outcome("SuperRight"@, has_code, has_modifiers) == CaptureStep::Ignore,
        capture_outcome("CapsLock"@, has_code, has_modifiers) == CaptureStep::Ignore,
        capture_outcome("NumLock"@, has_code, has_modifiers) == CaptureStep::Ignore,
        capture_outcome("ScrollLock"@, has_code, has_modifiers) == CaptureStep::Ignore,
        capture_outcome("Fn"@, has_code, has_modifiers) == CaptureStep::Ignore,
        capture_outcome("FnLock"@, has_code, has_modifiers) == CaptureStep::Ignore,
{
    lemma_key_literals();
    let e = "Escape"@;
    lemma_texts_differ("ShiftLeft"@, e);
    lemma_texts_differ("ShiftRight"@, e);
    lemma_texts_differ("ControlLeft"@, e);
    lemma_texts_differ("ControlRight"@, e);
    lemma_texts_differ("AltLeft"@, e);
    lemma_texts_differ("AltRight"@, e);
    lemma_texts_differ("SuperLeft"@, e);
    lemma_texts_differ("SuperRight"@, e);
    lemma_texts_differ("CapsLock"@, e);
    lemma_texts_differ("NumLock"@, e);
    lemma_texts_differ("ScrollLock"@, e);
    lemma_texts_differ("Fn"@, e);
    lemma_texts_differ("FnLock"@, e);
}

/// `input_position_from` finds the first input, from `i` on, with the code:
/// that input has the code and none between `i` and it does; when it finds
/// none, no input from `i` on has the code. So the status line names an input
/// exactly when its code is the current one, and the first such input.
pub proof fn lemma_input_position_is_first(inputs: Seq<InputSource>, code: u16, i: int)
    requires
        0 <= i,
    ensures
        match input_position_from(inputs, code, i) {
            Some(p) => i <= p < inputs.len() && inputs[p].code == code && forall|j: int|
                i <= j < p ==> (#[trigger] inputs[j]).code != code,
            None => forall|j: int| i <= j < inputs.len() ==> (#[trigger] inputs[j]).code != code,
        },
    decreases inputs.len() - i,
{
    if i < inputs.len() {
        lemma_input_position_is_first(inputs, code, i + 1);
    }
}

/// Lengths and first characters of the literal item ids.
#[verifier::spinoff_prover]
proof fn lemma_id_literals()
    ensures
        "quit"@.len() == 4 && "quit"@[0] == 'q',
        "rescan"@.len() == 6 && "rescan"@[0] == 'r',
        "open_config"@.len() == 11 && "open_config"@[0] == 'o',
        "open_at_login"@.len() == 13 && "open_at_login"@[0] == 'o',
        "set_hotkey"@.len() == 10 && "set_hotkey"@[0] == 's',
        "status"@.len() == 6 && "status"@[0] == 's',
        "hotkey_status"@.len() == 13 && "hotkey_status"@[0] == 'h',
        "input:"@.len() == 6 && "input:"@[0] == 'i',
        "toggle:"@.len() == 7 && "toggle:"@[0] == 't',
{
    reveal_strlit("quit");
    reveal_strlit("rescan");
    reveal_strlit("open_config");
    reveal_strlit("open_at_login");
    reveal_strlit("set_hotkey");
    reveal_strlit("status");
    reveal_strlit("hotkey_status");
    reveal_strlit("input:");
    reveal_strlit("toggle:");
}

/// Texts of different lengths, or with different first characters, differ.
proof fn lemma_texts_differ(a: Seq<char>, b: Seq<char>)
    requires
        a.len() != b.len() || (a.len() > 0 && b.len() > 0 && a[0] != b[0]),
    ensures
        a != b,
{
}

/// A text that starts with neither 'i' nor 't' is no "input:" or "toggle:" item id.
proof fn lemma_no_item_prefix(s: Seq<char>)
    requires
        s.len() > 0,
        s[0] != 'i',
        s[0] != 't',
    ensures
        parse_item_id("input:"@, s) is None,
        parse_item_id("toggle:"@, s) is None,
{
    lemma_id_literals();
    let p = "input:"@;
    let q = "toggle:"@;
    if p.is_prefix_of(s) {
        assert(s.subrange(0, p.len() as int)[0] == s[0]);
    }
    if q.is_prefix_of(s) {
        assert(s.subrange(0, q.len() as int)[0] == s[0]);
    }
}

/// The fixed items of the menu decode to their commands; the status and
/// hotkey lines do nothing.
#[verifier::spinoff_prover]
pub proof fn lemma_fixed_ids_decode()
    ensures
        command_for("status"@) == MenuCommand::Ignore,
        command_for("hotkey_status"@) == MenuCommand::Ignore,
        command_for("set_hotkey"@) == MenuCommand::SetHotkey,
        command_for("rescan"@) == MenuCommand::Rescan,
        command_for("open_config"@) == MenuCommand::OpenConfig,
        command_for("open_at_login"@) == MenuCommand::ToggleOpenAtLogin,
        command_for("quit"@) == MenuCommand::Quit,
{
    lemma_id_literals();
    let quit = "quit"@;
    let rescan = "rescan"@;
    let open_config = "open_config"@;
    let open_at_login = "open_at_login"@;
    let set_hotkey = "set_hotkey"@;
    let status = "status"@;
    let hotkey_status = "hotkey_status"@;
    // "rescan": differs from "quit".
    lemma_texts_differ(rescan, quit);
    // "open_config": differs from "quit" and "rescan".
    lemma_texts_differ(open_config, quit);
    lemma_texts_differ(open_config, rescan);
    // "open_at_login": differs from the three before it.
    lemma_texts_differ(open_at_login, quit);
    lemma_texts_differ(open_at_login, rescan);
    lemma_texts_differ(open_at_login, open_config);
    // "set_hotkey": differs from the four before it.
    lemma_texts_differ(set_hotkey, quit);
    lemma_texts_differ(set_hotkey, rescan);
    lemma_texts_differ(set_hotkey, open_config);
    lemma_texts_differ(set_hotkey, open_at_login);
    // "status" and "hotkey_status": differ from all five, and are no item ids.
    lemma_texts_differ(status, quit);
    lemma_texts_differ(status, rescan);
    lemma_texts_differ(status, open_config);
    lemma_texts_differ(status, open_at_login);
    lemma_texts_differ(status, set_hotkey);
    lemma_texts_differ(hotkey_status, quit);
    lemma_texts_differ(hotkey_status, rescan);
    lemma_texts_differ(hotkey_status, open_config);
    lemma_texts_differ(hotkey_status, open_at_login);
    lemma_texts_differ(hotkey_status, set_hotkey);
    lemma_no_item_prefix(status);
    lemma_no_item_prefix(hotkey_status);
}

/// Clicking the menu item built for the input at `index` selects that input,
/// and clicking its "Cycle Inputs" item toggles that same input.
#[verifier::spinoff_prover]
pub proof fn lemma_item_ids_round_trip(index: usize)
    ensures
        command_for(input_item_id(index as nat)) == MenuCommand::SelectInput(index),
        command_for(toggle_item_id(index as nat)) == MenuCommand::ToggleCycle(index),
{
    lemma_id_literals();
    lemma_prefixed_id("input:"@, index);
    lemma_prefixed_id("toggle:"@, index);
    let a = input_item_id(index as nat);
    let t = toggle_item_id(index as nat);
    assert(a[0] == 'i');
    assert(t[0] == 't');
    lemma_texts_differ(a, "quit"@);
    lemma_texts_differ(a, "rescan"@);
    lemma_texts_differ(a, "open_config"@);
    lemma_texts_differ(a, "open_at_login"@);
    lemma_texts_differ(a, "set_hotkey"@);
    lemma_texts_differ(t, "quit"@);
    lemma_texts_differ(t, "rescan"@);
    lemma_texts_differ(t, "open_config"@);
    lemma_texts_differ(t, "open_at_login"@);
    lemma_texts_differ(t, "set_hotkey"@);
    assert(!"input:"@.is_prefix_of(t)) by {
        if "input:"@.is_prefix_of(t) {
            assert(t.subrange(0, 6)[0] == t[0]);
        }
    }
}

} // verus!
