//! Which input devices to grab, and what the virtual devices offer.

use vstd::prelude::*;
use crate::config::key_name::{evdev_key_name, find_name, key_name, name_index};
use crate::key::{
    BTN_LEFT, BTN_TOOL_PEN, BTN_TOUCH, BTN_TRIGGER_HAPPY40, KEY_A, KEY_RESERVED, KEY_SPACE, KEY_Z,
};
use crate::text::{
    chars_of, contains, decimal, is_prefix, is_substring, matches_at, push_decimal, same_text,
    starts_with, views,
};

verus! {

/// The kinds of device that the translator tells apart.
#[derive(Debug, Clone, Copy, PartialEq, Eq, Structural)]
pub enum DeviceType {
    Tablet,
    Other,
}

pub const ABS_X: u16 = 0;
pub const ABS_Y: u16 = 1;

pub const REL_X: u16 = 0;
pub const REL_Y: u16 = 1;
pub const REL_HWHEEL: u16 = 6;
pub const REL_WHEEL: u16 = 8;
pub const REL_MISC: u16 = 9;

pub const BUS_USB: u16 = 3;

/// Vendor, product and version under which the virtual devices appear.
pub const VIRTUAL_VENDOR: u16 = 0x1234;
pub const VIRTUAL_PRODUCT: u16 = 0x5678;
pub const VIRTUAL_VERSION: u16 = 0x111;

/// What is known of an input device: where its node is, how it calls
/// itself, and what it can report.
#[derive(Debug)]
pub struct InputDevice {
    /// The path of the device node, such as `/dev/input/event3`.
    pub path: String,
    /// The name that the device reports, if it reports one.
    pub name: Option<String>,
    /// The key codes that the device can report, if it reports keys.
    pub keys: Option<Vec<u16>>,
    /// The absolute axes that the device can report, if it reports any.
    pub absolute_axes: Option<Vec<u16>>,
    pub bus_type: u16,
}

/// Where in `path` its last component begins: behind the last slash, or at
/// the start if there is no slash.
pub open spec fn file_name_start(path: Seq<char>) -> int
    decreases path.len(),
{
    if path.len() == 0 {
        0
    } else if path.last() == '/' {
        path.len() as int
    } else {
        file_name_start(path.drop_last())
    }
}

/// The last component of `path`: what follows its last slash.
pub open spec fn file_name(path: Seq<char>) -> Seq<char> {
    path.subrange(file_name_start(path), path.len() as int)
}

/// The name of the virtual keyboard and mouse of the process `pid`.
pub open spec fn own_name(pid: u32) -> Seq<char> {
    "xremap pid="@ + decimal(pid as nat)
}

/// The name of the virtual tablet of the process `pid`.
pub open spec fn own_tablet_name(pid: u32) -> Seq<char> {
    "xremap tablet pid="@ + decimal(pid as nat)
}

/// The name of a device that reports none.
pub open spec fn unnamed() -> Seq<char> {
    "<Unnamed device>"@
}

/// Whether the option `option` of the command line selects a device with
/// this path and name: it is the path or the name, or it begins with
/// `event` and is the last component of the path, or it occurs in the name.
pub open spec fn option_selects(path: Seq<char>, name: Seq<char>, option: Seq<char>) -> bool {
    ||| path == option
    ||| name == option
    ||| (is_prefix(option, "event"@) && file_name(path) == option)
    ||| is_substring(name, option)
}

/// The name of the virtual keyboard and mouse of the process `pid`.
pub fn current_name(pid: u32) -> (name: String)
    ensures
        name@ == own_name(pid),
{
    let mut name: String = "xremap pid=".to_owned();
    push_decimal(&mut name, pid);
    name
}

/// The name of the virtual tablet of the process `pid`.
pub fn current_name_tablet(pid: u32) -> (name: String)
    ensures
        name@ == own_tablet_name(pid),
{
    let mut name: String = "xremap tablet pid=".to_owned();
    push_decimal(&mut name, pid);
    name
}

/// Where the last component of `path` begins.
fn find_file_name(path: &Vec<char>) -> (start: usize)
    ensures
        start == file_name_start(path@),
        start <= path.len(),
{
    let mut i: usize = path.len();
    assert(path@.take(i as int) =~= path@);
    while i > 0
        invariant
            i <= path.len(),
            file_name_start(path@) == file_name_start(path@.take(i as int)),
        decreases i,
    {
        if path[i - 1] == '/' {
            proof {
                lemma_file_name_start_bound(path@.take(i as int));
            }
            return i;
        }
        assert(path@.take(i as int).drop_last() =~= path@.take(i - 1));
        i -= 1;
    }
    0
}

/// The last component of a path begins within it.
pub proof fn lemma_file_name_start_bound(path: Seq<char>)
    ensures
        0 <= file_name_start(path) <= path.len(),
    decreases path.len(),
{
    if path.len() > 0 && path.last() != '/' {
        lemma_file_name_start_bound(path.drop_last());
    }
}

/// Whether the last component of `path` is `name`.
pub fn file_name_is(path: &str, name: &str) -> (b: bool)
    ensures
        b == (file_name(path@) == name@),
{
    let p: Vec<char> = chars_of(path);
    let n: Vec<char> = chars_of(name);
    let start: usize = find_file_name(&p);
    if p.len() - start != n.len() {
        return false;
    }
    matches_at(&p, start, &n)
}

/// Whether `path` names an event device node: its last component begins
/// with `event`.
pub fn is_event_path(path: &str) -> (b: bool)
    ensures
        b == is_prefix(file_name(path@), "event"@),
{
    let p: Vec<char> = chars_of(path);
    let e: Vec<char> = chars_of("event");
    let start: usize = find_file_name(&p);
    if p.len() - start < e.len() {
        return false;
    }
    let b = matches_at(&p, start, &e);
    assert(file_name(path@).subrange(0, e.len() as int) =~= p@.subrange(
        start as int,
        start + e.len(),
    ));
    b
}

/// Whether `codes` holds `code`.
pub fn has_code(codes: &Vec<u16>, code: u16) -> (found: bool)
    ensures
        found == codes@.contains(code),
{
    let mut i: usize = 0;
    while i < codes.len()
        invariant
            i <= codes.len(),
            forall|k: int| 0 <= k < i ==> codes@[k] != code,
        decreases codes.len() - i,
    {
        if codes[i] == code {
            return true;
        }
        i += 1;
    }
    false
}

/// Whether an optional list of codes holds `code`.
pub open spec fn reports(codes: Option<Vec<u16>>, code: u16) -> bool {
    codes is Some && codes->0@.contains(code)
}

fn does_report(codes: &Option<Vec<u16>>, code: u16) -> (b: bool)
    ensures
        b == reports(*codes, code),
{
    match codes {
        Some(list) => has_code(list, code),
        None => false,
    }
}

impl InputDevice {
    /// The name of the device, or a stand-in if it reports none.
    pub open spec fn name_view(self) -> Seq<char> {
        match self.name {
            Some(name) => name@,
            None => unnamed(),
        }
    }

    /// The name of the device, or a stand-in if it reports none.
    pub fn device_name(&self) -> (name: &str)
        ensures
            name@ == self.name_view(),
    {
        match &self.name {
            Some(name) => name.as_str(),
            None => "<Unnamed device>",
        }
    }

    pub fn bus_type(&self) -> (bus: u16)
        ensures
            bus == self.bus_type,
    {
        self.bus_type
    }

    /// A keyboard has the space bar, A and Z, and no left mouse button.
    pub open spec fn keyboard(self) -> bool {
        &&& reports(self.keys, KEY_SPACE)
        &&& reports(self.keys, KEY_A)
        &&& reports(self.keys, KEY_Z)
        &&& !reports(self.keys, BTN_LEFT)
    }

    /// A mouse has a left button.
    pub open spec fn mouse(self) -> bool {
        reports(self.keys, BTN_LEFT)
    }

    /// A tablet has the absolute axes X and Y, a pen and a touch button.
    pub open spec fn tablet(self) -> bool {
        &&& reports(self.absolute_axes, ABS_X)
        &&& reports(self.absolute_axes, ABS_Y)
        &&& reports(self.keys, BTN_TOOL_PEN)
        &&& reports(self.keys, BTN_TOUCH)
    }

    pub fn is_keyboard(&self) -> (b: bool)
        ensures
            b == self.keyboard(),
    {
        does_report(&self.keys, KEY_SPACE) && does_report(&self.keys, KEY_A) && does_report(
            &self.keys,
            KEY_Z,
        ) && !does_report(&self.keys, BTN_LEFT)
    }

    pub fn is_mouse(&self) -> (b: bool)
        ensures
            b == self.mouse(),
    {
        does_report(&self.keys, BTN_LEFT)
    }

    pub fn is_tablet(&self) -> (b: bool)
        ensures
            b == self.tablet(),
    {
        does_report(&self.absolute_axes, ABS_Y) && does_report(&self.absolute_axes, ABS_X)
            && does_report(&self.keys, BTN_TOOL_PEN) && does_report(&self.keys, BTN_TOUCH)
    }

    /// The kind of the device.
    pub fn device_type(&self) -> (kind: DeviceType)
        ensures
            kind == (if self.tablet() {
                DeviceType::Tablet
            } else {
                DeviceType::Other
            }),
    {
        if self.is_tablet() {
            DeviceType::Tablet
        } else {
            DeviceType::Other
        }
    }

    /// Whether some option of `filter` selects the device.  The virtual
    /// device of the process itself is never selected.
    pub open spec fn selected_by(self, filter: Seq<Seq<char>>, pid: u32) -> bool {
        self.name_view() != own_name(pid) && exists|i: int|
            0 <= i < filter.len() && option_selects(self.path@, self.name_view(), #[trigger] filter[i])
    }

    /// Whether some option of `filter` selects the device.
    pub fn matches(&self, filter: &Vec<String>, pid: u32) -> (b: bool)
        ensures
            b == self.selected_by(views(filter@), pid),
    {
        let name: &str = self.device_name();
        // Force unmatch its own device
        if same_text(name, current_name(pid).as_str()) {
            return false;
        }
        let mut i: usize = 0;
        while i < filter.len()
            invariant
                i <= filter.len(),
                name@ == self.name_view(),
                self.name_view() != own_name(pid),
                forall|k: int|
                    0 <= k < i ==> !option_selects(self.path@, self.name_view(), filter@[k]@),
            decreases filter.len() - i,
        {
            let option: &str = filter[i].as_str();
            assert(views(filter@)[i as int] == option@);
            // Check exact matches for explicit selection
            if same_text(self.path.as_str(), option) || same_text(name, option) {
                return true;
            }
            // eventXX shorthand for /dev/input/eventXX
            if starts_with(option, "event") && file_name_is(self.path.as_str(), option) {
                return true;
            }
            // Allow partial matches for device names
            if contains(name, option) {
                return true;
            }
            i += 1;
        }
        false
    }

    /// Whether the device is to be grabbed.  The virtual devices of the
    /// process itself never are.  Of the others, without `device_filter` the
    /// keyboards are chosen, and the mice if `mouse` is set; with it, the
    /// devices that it selects.  A device that `ignore_filter` selects is
    /// left out.
    pub open spec fn wanted(
        self,
        device_filter: Seq<Seq<char>>,
        ignore_filter: Seq<Seq<char>>,
        mouse: bool,
        pid: u32,
    ) -> bool {
        &&& self.name_view() != own_name(pid)
        &&& self.name_view() != own_tablet_name(pid)
        &&& if device_filter.len() == 0 {
            self.keyboard() || (mouse && self.mouse())
        } else {
            self.selected_by(device_filter, pid)
        }
        &&& ignore_filter.len() == 0 || !self.selected_by(ignore_filter, pid)
    }

    /// Whether the device is to be grabbed.
    pub fn is_input_device(
        &self,
        device_filter: &Vec<String>,
        ignore_filter: &Vec<String>,
        mouse: bool,
        pid: u32,
    ) -> (b: bool)
        ensures
            b == self.wanted(views(device_filter@), views(ignore_filter@), mouse, pid),
    {
        let name: &str = self.device_name();
        if same_text(name, current_name(pid).as_str()) || same_text(
            name,
            current_name_tablet(pid).as_str(),
        ) {
            return false;
        }
        (if device_filter.len() == 0 {
            self.is_keyboard() || (mouse && self.is_mouse())
        } else {
            self.matches(device_filter, pid)
        }) && (ignore_filter.len() == 0 || !self.matches(ignore_filter, pid))
    }
}

/// The indices of the first `n` devices of `devices` that are to be
/// grabbed, in rising order.
pub open spec fn wanted_devices(
    devices: Seq<InputDevice>,
    n: int,
    device_filter: Seq<Seq<char>>,
    ignore_filter: Seq<Seq<char>>,
    mouse: bool,
    pid: u32,
) -> Seq<usize>
    decreases n,
{
    if n <= 0 {
        Seq::empty()
    } else {
        let rest = wanted_devices(devices, n - 1, device_filter, ignore_filter, mouse, pid);
        if devices[n - 1].wanted(device_filter, ignore_filter, mouse, pid) {
            rest.push((n - 1) as usize)
        } else {
            rest
        }
    }
}

/// The devices to try to grab: the indices of those among `devices` that
/// are wanted, in rising order.
pub fn select_input_devices(
    devices: &Vec<InputDevice>,
    device_filter: &Vec<String>,
    ignore_filter: &Vec<String>,
    mouse: bool,
    pid: u32,
) -> (chosen: Vec<usize>)
    ensures
        chosen@ == wanted_devices(
            devices@,
            devices.len() as int,
            views(device_filter@),
            views(ignore_filter@),
            mouse,
            pid,
        ),
{
    let mut chosen: Vec<usize> = Vec::new();
    let mut i: usize = 0;
    while i < devices.len()
        invariant
            i <= devices.len(),
            chosen@ == wanted_devices(
                devices@,
                i as int,
                views(device_filter@),
                views(ignore_filter@),
                mouse,
                pid,
            ),
        decreases devices.len() - i,
    {
        if devices[i].is_input_device(device_filter, ignore_filter, mouse, pid) {
            chosen.push(i);
        }
        i += 1;
    }
    chosen
}

/// Why no device could be prepared.
#[derive(Debug, Clone, Copy, PartialEq, Eq, Structural)]
pub enum DeviceError {
    /// No device was grabbed and none is waited for.
    NoDeviceSelected,
}

/// What the grabbing of devices has led to.
#[derive(Debug, Clone, Copy, PartialEq, Eq, Structural)]
pub enum Selection {
    /// This many devices were grabbed.
    Grabbed(usize),
    /// None was grabbed, but new devices are watched for.
    Waiting,
}

/// Judges the outcome of grabbing: it is an error to have grabbed no device
/// unless new devices are watched for.
pub fn check_selection(grabbed: usize, watch: bool) -> (outcome: Result<Selection, DeviceError>)
    ensures
        outcome == (if grabbed > 0 {
            Ok::<Selection, DeviceError>(Selection::Grabbed(grabbed))
        } else if watch {
            Ok(Selection::Waiting)
        } else {
            Err(DeviceError::NoDeviceSelected)
        }),
{
    if grabbed > 0 {
        Ok(Selection::Grabbed(grabbed))
    } else if watch {
        Ok(Selection::Waiting)
    } else {
        Err(DeviceError::NoDeviceSelected)
    }
}

impl DeviceError {
    /// The message for the user.
    pub fn message(&self) -> (text: String)
        ensures
            text@ == "No device was selected!"@,
    {
        "No device was selected!".to_owned()
    }
}

/// The bus type of the virtual keyboard: that of a grabbed device, or USB
/// if there is none to take it from.
pub fn output_bus_type(bus_type: Option<u16>) -> (bus: u16)
    ensures
        bus == (match bus_type {
            Some(b) => b,
            None => BUS_USB,
        }),
{
    match bus_type {
        Some(b) => b,
        None => BUS_USB,
    }
}

/// The relative axes that the virtual keyboard and mouse offers.
pub fn output_relative_axes() -> (axes: Vec<u16>)
    ensures
        axes@ == seq![REL_X, REL_Y, REL_HWHEEL, REL_WHEEL, REL_MISC],
{
    let mut axes: Vec<u16> = Vec::new();
    axes.push(REL_X);
    axes.push(REL_Y);
    axes.push(REL_HWHEEL);
    axes.push(REL_WHEEL);
    axes.push(REL_MISC);
    axes
}

/// The names of the mouse buttons that the virtual keyboard and mouse
/// offers.
pub open spec fn mouse_button_names() -> Seq<Seq<char>> {
    seq![
        "BTN_MISC"@,
        "BTN_0"@,
        "BTN_1"@,
        "BTN_2"@,
        "BTN_3"@,
        "BTN_4"@,
        "BTN_5"@,
        "BTN_6"@,
        "BTN_7"@,
        "BTN_8"@,
        "BTN_9"@,
        "BTN_MOUSE"@,
        "BTN_LEFT"@,
        "BTN_RIGHT"@,
        "BTN_MIDDLE"@,
        "BTN_SIDE"@,
        "BTN_EXTRA"@,
        "BTN_FORWARD"@,
        "BTN_BACK"@,
        "BTN_TASK"@,
    ]
}

/// The codes of the buttons that the virtual tablet offers: the tools, the
/// touch and stylus buttons, and the buttons 0 to 9.
pub open spec fn tablet_buttons() -> Seq<u16> {
    seq![
        0x140u16,
        0x144u16,
        0x142u16,
        0x143u16,
        0x14au16,
        0x14bu16,
        0x14cu16,
        0x100u16,
        0x101u16,
        0x102u16,
        0x103u16,
        0x104u16,
        0x105u16,
        0x106u16,
        0x107u16,
        0x108u16,
        0x109u16,
    ]
}

/// Whether the virtual keyboard and mouse offers the key with the code
/// `code`, which the evdev crate prints as `name`: every key whose name
/// begins with `KEY_`, the mouse buttons and the tablet buttons.
pub open spec fn key_offered(name: Seq<char>, code: u16) -> bool {
    ||| is_prefix(name, "KEY_"@)
    ||| name_index(mouse_button_names(), name, 0) < mouse_button_names().len()
    ||| tablet_buttons().contains(code)
}

fn mouse_buttons() -> (names: Vec<&'static str>)
    ensures
        names@.map_values(|s: &'static str| s@) == mouse_button_names(),
{
    let mut names: Vec<&'static str> = Vec::new();
    names.push("BTN_MISC");
    names.push("BTN_0");
    names.push("BTN_1");
    names.push("BTN_2");
    names.push("BTN_3");
    names.push("BTN_4");
    names.push("BTN_5");
    names.push("BTN_6");
    names.push("BTN_7");
    names.push("BTN_8");
    names.push("BTN_9");
    names.push("BTN_MOUSE");
    names.push("BTN_LEFT");
    names.push("BTN_RIGHT");
    names.push("BTN_MIDDLE");
    names.push("BTN_SIDE");
    names.push("BTN_EXTRA");
    names.push("BTN_FORWARD");
    names.push("BTN_BACK");
    names.push("BTN_TASK");
    names
}

fn tablet_button_codes() -> (codes: Vec<u16>)
    ensures
        codes@ == tablet_buttons(),
{
    let mut codes: Vec<u16> = Vec::new();
    codes.push(0x140);
    codes.push(0x144);
    codes.push(0x142);
    codes.push(0x143);
    codes.push(0x14a);
    codes.push(0x14b);
    codes.push(0x14c);
    codes.push(0x100);
    codes.push(0x101);
    codes.push(0x102);
    codes.push(0x103);
    codes.push(0x104);
    codes.push(0x105);
    codes.push(0x106);
    codes.push(0x107);
    codes.push(0x108);
    codes.push(0x109);
    codes
}

/// Whether the virtual keyboard and mouse offers the key with the code
/// `code`, which the evdev crate prints as `name`.
pub fn is_output_key(name: &str, code: u16) -> (offered: bool)
    ensures
        offered == key_offered(name@, code),
{
    if starts_with(name, "KEY_") {
        return true;
    }
    let mouse = mouse_buttons();
    match find_name(&mouse, name) {
        Some(_) => {
            return true;
        },
        None => {},
    }
    has_code(&tablet_button_codes(), code)
}

/// The codes below `n` of the keys that the virtual keyboard and mouse
/// offers, in rising order.
pub open spec fn output_codes(n: int) -> Seq<u16>
    decreases n,
{
    if n <= 0 {
        Seq::empty()
    } else {
        let rest = output_codes(n - 1);
        if key_offered(evdev_key_name((n - 1) as u16), (n - 1) as u16) {
            rest.push((n - 1) as u16)
        } else {
            rest
        }
    }
}

/// The keys that the virtual keyboard and mouse offers: of the codes from
/// `KEY_RESERVED` up to, but without, `BTN_TRIGGER_HAPPY40` those that are
/// offered, in rising order.
pub fn output_keys() -> (keys: Vec<u16>)
    ensures
        keys@ == output_codes(BTN_TRIGGER_HAPPY40 as int),
{
    let mut keys: Vec<u16> = Vec::new();
    let mut code: u16 = KEY_RESERVED;
    while code < BTN_TRIGGER_HAPPY40
        invariant
            code <= BTN_TRIGGER_HAPPY40,
            keys@ == output_codes(code as int),
        decreases BTN_TRIGGER_HAPPY40 - code,
    {
        let name: String = key_name(code);
        if is_output_key(name.as_str(), code) {
            keys.push(code);
        }
        code += 1;
    }
    keys
}

/// The codes below `n` of the buttons that the virtual tablet offers, in
/// rising order.
pub open spec fn tablet_codes(n: int) -> Seq<u16>
    decreases n,
{
    if n <= 0 {
        Seq::empty()
    } else {
        let rest = tablet_codes(n - 1);
        if tablet_buttons().contains((n - 1) as u16) {
            rest.push((n - 1) as u16)
        } else {
            rest
        }
    }
}

/// The buttons that the virtual tablet offers, in rising order.
pub fn tablet_keys() -> (keys: Vec<u16>)
    ensures
        keys@ == tablet_codes(BTN_TRIGGER_HAPPY40 as int),
{
    let buttons = tablet_button_codes();
    let mut keys: Vec<u16> = Vec::new();
    let mut code: u16 = KEY_RESERVED;
    while code < BTN_TRIGGER_HAPPY40
        invariant
            code <= BTN_TRIGGER_HAPPY40,
            buttons@ == tablet_buttons(),
            keys@ == tablet_codes(code as int),
        decreases BTN_TRIGGER_HAPPY40 - code,
    {
        if has_code(&buttons, code) {
            keys.push(code);
        }
        code += 1;
    }
    keys
}

} // verus!
