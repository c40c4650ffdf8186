//! What the controller reports to its host: connection lifecycle, Bluetooth
//! availability, discovered desks, and the screen those imply.

use vstd::prelude::*;

verus! {

/// High-level connection lifecycle, reported as it changes.
#[derive(Clone, Copy, Debug, PartialEq, Eq, Structural)]
pub enum ConnectionState {
    Disconnected,
    Connecting,
    Connected,
}

/// Bluetooth adapter availability, reported at startup and on every change.
#[derive(Clone, Copy, Debug, PartialEq, Eq, Structural)]
pub enum BluetoothState {
    /// Adapter present and powered on.
    Ready,
    /// Bluetooth is unavailable: the radio is switched off or no adapter is
    /// present. Both look the same to the user.
    Off,
}

/// The screen the host shows, derived from the connection and Bluetooth state.
#[derive(Clone, Copy, Debug, PartialEq, Eq, Structural)]
pub enum Screen {
    BluetoothOff,
    Scanning,
    Connecting,
    Connected,
}

/// The power state an adapter reports (the three states of a BLE central).
#[derive(Clone, Copy, Debug, PartialEq, Eq, Structural)]
pub enum AdapterState {
    Unknown,
    PoweredOn,
    PoweredOff,
}

/// A discovered desk.
#[derive(Clone, Debug)]
pub struct DeskInfo {
    pub name: String,
    pub address: String,
    /// Signal strength in dBm, when the adapter reports it.
    pub rssi: Option<i16>,
}

/// The abstract content of a [`DeskInfo`].
pub struct DeskInfoView {
    pub name: Seq<char>,
    pub address: Seq<char>,
    pub rssi: Option<i16>,
}

impl View for DeskInfo {
    type V = DeskInfoView;

    open spec fn view(&self) -> DeskInfoView {
        DeskInfoView { name: self.name@, address: self.address@, rssi: self.rssi }
    }
}

/// The screen for a connection and Bluetooth state. Connected takes
/// precedence over a stale `Off` reading from the adapter.
pub open spec fn derive_screen(connection: ConnectionState, bluetooth: BluetoothState) -> Screen {
    match connection {
        ConnectionState::Connected => Screen::Connected,
        ConnectionState::Connecting => match bluetooth {
            BluetoothState::Off => Screen::BluetoothOff,
            BluetoothState::Ready => Screen::Connecting,
        },
        ConnectionState::Disconnected => match bluetooth {
            BluetoothState::Off => Screen::BluetoothOff,
            BluetoothState::Ready => Screen::Scanning,
        },
    }
}

/// Tracks the inputs that derive the current [`Screen`], so a change is
/// detected and the screen emitted exactly once per real transition.
#[derive(Clone, Copy, Debug)]
pub struct ScreenState {
    pub connection: ConnectionState,
    pub bluetooth: BluetoothState,
    pub last_emitted: Option<Screen>,
}

/// What to emit when the derived screen is `next` and `last` was emitted
/// before: `next`, unless it is what was emitted last.
pub open spec fn emission(last: Option<Screen>, next: Screen) -> Option<Screen> {
    if last == Some(next) {
        None
    } else {
        Some(next)
    }
}

/// The state after recording a connection change, and what it emits.
pub open spec fn after_connection(s: ScreenState, state: ConnectionState) -> (ScreenState, Option<Screen>) {
    let next = derive_screen(state, s.bluetooth);
    (
        ScreenState { connection: state, bluetooth: s.bluetooth, last_emitted: Some(next) },
        emission(s.last_emitted, next),
    )
}

/// The state after recording a Bluetooth change, and what it emits.
pub open spec fn after_bluetooth(s: ScreenState, state: BluetoothState) -> (ScreenState, Option<Screen>) {
    let next = derive_screen(s.connection, state);
    (
        ScreenState { connection: s.connection, bluetooth: state, last_emitted: Some(next) },
        emission(s.last_emitted, next),
    )
}

impl ScreenState {
    /// Disconnected, Bluetooth assumed ready, nothing emitted yet.
    pub fn new() -> (s: ScreenState)
        ensures
            s.connection == ConnectionState::Disconnected,
            s.bluetooth == BluetoothState::Ready,
            s.last_emitted is None,
    {
        ScreenState {
            connection: ConnectionState::Disconnected,
            bluetooth: BluetoothState::Ready,
            last_emitted: None,
        }
    }

    /// The screen these inputs call for.
    pub fn derive(&self) -> (screen: Screen)
        ensures
            screen == derive_screen(self.connection, self.bluetooth),
    {
        match self.connection {
            ConnectionState::Connected => Screen::Connected,
            ConnectionState::Connecting => match self.bluetooth {
                BluetoothState::Off => Screen::BluetoothOff,
                BluetoothState::Ready => Screen::Connecting,
            },
            ConnectionState::Disconnected => match self.bluetooth {
                BluetoothState::Off => Screen::BluetoothOff,
                BluetoothState::Ready => Screen::Scanning,
            },
        }
    }

    /// Record the derived screen as emitted; return it if it differs from the
    /// one emitted last.
    fn emit_if_changed(&mut self) -> (emitted: Option<Screen>)
        ensures
            final(self).connection == old(self).connection,
            final(self).bluetooth == old(self).bluetooth,
            final(self).last_emitted == Some(derive_screen(old(self).connection, old(self).bluetooth)),
            emitted == emission(old(self).last_emitted, derive_screen(old(self).connection, old(self).bluetooth)),
    {
        let next = self.derive();
        let same = match self.last_emitted {
            Some(last) => last == next,
            None => false,
        };
        self.last_emitted = Some(next);
        if same {
            None
        } else {
            Some(next)
        }
    }

    /// Record a connection change; returns the screen to emit, if it changed.
    pub fn set_connection(&mut self, state: ConnectionState) -> (emitted: Option<Screen>)
        ensures
            (*final(self), emitted) == after_connection(*old(self), state),
    {
        self.connection = state;
        self.emit_if_changed()
    }

    /// Record a Bluetooth change; returns the screen to emit, if it changed.
    pub fn set_bluetooth(&mut self, state: BluetoothState) -> (emitted: Option<Screen>)
        ensures
            (*final(self), emitted) == after_bluetooth(*old(self), state),
    {
        self.bluetooth = state;
        self.emit_if_changed()
    }
}

/// After any update the screen last emitted is the one the inputs derive.
pub proof fn lemma_emitted_matches_inputs(s: ScreenState, c: ConnectionState, b: BluetoothState)
    ensures
        after_connection(s, c).0.last_emitted == Some(derive_screen(c, s.bluetooth)),
        after_bluetooth(s, b).0.last_emitted == Some(derive_screen(s.connection, b)),
{
}

/// A screen is emitted exactly when it differs from the one emitted before.
pub proof fn lemma_emits_only_on_change(s: ScreenState, c: ConnectionState, b: BluetoothState)
    ensures
        after_connection(s, c).1 is Some <==> s.last_emitted != Some(derive_screen(c, s.bluetooth)),
        after_bluetooth(s, b).1 is Some <==> s.last_emitted != Some(derive_screen(s.connection, b)),
{
}

/// Reporting the same state twice emits nothing the second time.
pub proof fn lemma_repeat_emits_nothing(s: ScreenState, c: ConnectionState, b: BluetoothState)
    ensures
        after_connection(after_connection(s, c).0, c).1 is None,
        after_bluetooth(after_bluetooth(s, b).0, b).1 is None,
{
}

/// While connected, the screen stays `Connected` whatever the adapter reports.
pub proof fn lemma_connected_takes_precedence(b: BluetoothState)
    ensures
        derive_screen(ConnectionState::Connected, b) == Screen::Connected,
{
}

/// Bluetooth going off while connected: recording `Off` before the link is
/// torn down takes the screen straight from `Connected` to `BluetoothOff`;
/// `Scanning` is never emitted on the way.
pub proof fn lemma_radio_off_skips_scanning(s: ScreenState)
    requires
        s.connection == ConnectionState::Connected,
        s.last_emitted == Some(Screen::Connected),
    ensures
        after_bluetooth(s, BluetoothState::Off).1 is None,
        after_connection(after_bluetooth(s, BluetoothState::Off).0, ConnectionState::Disconnected).1
            == Some(Screen::BluetoothOff),
{
}

/// The availability an adapter power state means: only a switched-off radio
/// is `Off`.
pub open spec fn availability_of(state: AdapterState) -> BluetoothState {
    match state {
        AdapterState::PoweredOff => BluetoothState::Off,
        _ => BluetoothState::Ready,
    }
}

/// Map an adapter power state to [`BluetoothState`]. A present but switched
/// off adapter is `Off`; anything else is `Ready`.
pub fn map_central_state(state: AdapterState) -> (b: BluetoothState)
    ensures
        b == availability_of(state),
{
    match state {
        AdapterState::PoweredOff => BluetoothState::Off,
        _ => BluetoothState::Ready,
    }
}

/// Current Bluetooth availability from what the adapter query gave: no
/// adapter at all is `Off`; an adapter whose power state could not be read is
/// assumed `Ready`; otherwise its power state decides.
pub fn bluetooth_availability(adapter_found: bool, power: Option<AdapterState>) -> (b: BluetoothState)
    ensures
        !adapter_found ==> b == BluetoothState::Off,
        adapter_found && power is None ==> b == BluetoothState::Ready,
        adapter_found && power is Some ==> b == availability_of(power.unwrap()),
{
    if !adapter_found {
        return BluetoothState::Off;
    }
    match power {
        Some(state) => map_central_state(state),
        None => BluetoothState::Ready,
    }
}

/// Stable string form of the Bluetooth state, shared by the host's event and
/// its state query.
pub fn bt_state_str(state: BluetoothState) -> (s: &'static str)
    ensures
        state == BluetoothState::Ready ==> s@ == "ready"@,
        state == BluetoothState::Off ==> s@ == "off"@,
{
    match state {
        BluetoothState::Ready => "ready",
        BluetoothState::Off => "off",
    }
}

/// Stable string form of a connection state, as the host's connection event
/// carries it.
pub fn connection_state_str(state: ConnectionState) -> (s: &'static str)
    ensures
        state == ConnectionState::Disconnected ==> s@ == "disconnected"@,
        state == ConnectionState::Connecting ==> s@ == "connecting"@,
        state == ConnectionState::Connected ==> s@ == "connected"@,
{
    match state {
        ConnectionState::Disconnected => "disconnected",
        ConnectionState::Connecting => "connecting",
        ConnectionState::Connected => "connected",
    }
}

} // verus!
