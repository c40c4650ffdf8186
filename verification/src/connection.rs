//! Discovery and connection: which advertisements are desks, which
//! characteristics a connection needs, and the steps of one connect attempt.

use vstd::prelude::*;
use vstd::string::*;
use vstd::utf8::encode_utf8;

use crate::address::is_desk_name;
use crate::protocol::{
    CHARACTERISTIC_MOVE, CHARACTERISTIC_REFERENCE_IN, CHARACTERISTIC_REFERENCE_OUT,
    DESK_NAME_PREFIX,
};
use crate::reporter::{BluetoothState, DeskInfo, DeskInfoView};

verus! {

/// Whether an advertised name is a desk's: it begins with "Desk".
pub open spec fn is_desk_name_spec(name: Seq<char>) -> bool {
    DESK_NAME_PREFIX.spec_bytes().is_prefix_of(encode_utf8(name))
}

/// What a peripheral advertised, as scanning reads it.
#[derive(Clone, Debug)]
pub struct Advert {
    pub local_name: Option<String>,
    pub address: String,
    pub rssi: Option<i16>,
}

/// The abstract content of an [`Advert`].
pub struct AdvertView {
    pub local_name: Option<Seq<char>>,
    pub address: Seq<char>,
    pub rssi: Option<i16>,
}

impl View for Advert {
    type V = AdvertView;

    open spec fn view(&self) -> AdvertView {
        AdvertView {
            local_name: match self.local_name {
                Some(n) => Some(n@),
                None => None,
            },
            address: self.address@,
            rssi: self.rssi,
        }
    }
}

/// The desk an advertisement announces, if it announces one: it carries a
/// name that begins with "Desk".
pub open spec fn desk_of(a: AdvertView) -> Option<DeskInfoView> {
    match a.local_name {
        Some(n) => if is_desk_name_spec(n) {
            Some(DeskInfoView { name: n, address: a.address, rssi: a.rssi })
        } else {
            None
        },
        None => None,
    }
}

/// The desks a list of advertisements announces, in order.
pub open spec fn desks_of(adverts: Seq<AdvertView>) -> Seq<DeskInfoView>
    decreases adverts.len(),
{
    if adverts.len() == 0 {
        Seq::empty()
    } else {
        let rest = desks_of(adverts.drop_last());
        match desk_of(adverts.last()) {
            Some(d) => rest.push(d),
            None => rest,
        }
    }
}

/// The views of a list of advertisements.
pub open spec fn advert_views(adverts: Seq<Advert>) -> Seq<AdvertView> {
    adverts.map_values(|a: Advert| a@)
}

/// The views of a list of desks.
pub open spec fn desk_views(desks: Seq<DeskInfo>) -> Seq<DeskInfoView> {
    desks.map_values(|d: DeskInfo| d@)
}

/// The desk an advertisement announces, if any.
pub fn desk_from_advert(advert: &Advert) -> (d: Option<DeskInfo>)
    ensures
        match desk_of(advert@) {
            Some(v) => d matches Some(x) && x@ == v,
            None => d is None,
        },
{
    match &advert.local_name {
        Some(name) => {
            if is_desk_name(name.as_str()) {
                Some(DeskInfo { name: name.clone(), address: advert.address.clone(), rssi: advert.rssi })
            } else {
                None
            }
        },
        None => None,
    }
}

/// The desks among the peripherals a scan saw, in the order seen.
pub fn collect_desks(adverts: &Vec<Advert>) -> (out: Vec<DeskInfo>)
    ensures
        desk_views(out@) == desks_of(advert_views(adverts@)),
{
    let mut out: Vec<DeskInfo> = Vec::new();
    let mut i: usize = 0;
    while i < adverts.len()
        invariant
            i <= adverts@.len(),
            desk_views(out@) == desks_of(advert_views(adverts@.take(i as int))),
        decreases adverts@.len() - i,
    {
        let ghost before = out@;
        proof {
            assert(adverts@.take(i + 1).drop_last() == adverts@.take(i as int));
            assert(advert_views(adverts@.take(i + 1)).drop_last() == advert_views(adverts@.take(i as int)));
            assert(advert_views(adverts@.take(i + 1)).last() == adverts@[i as int]@);
        }
        match desk_from_advert(&adverts[i]) {
            Some(d) => {
                out.push(d);
                proof {
                    assert(desk_views(out@) == desk_views(before).push(d@));
                }
            },
            None => {},
        }
        i = i + 1;
    }
    proof {
        assert(adverts@.take(adverts@.len() as int) == adverts@);
    }
    out
}

/// A scan reports exactly the advertisements that announce a desk, each as
/// the desk it announces, in the order seen: the filter-map of the
/// advertisements by [`desk_of`].
pub proof fn lemma_desks_are_filter_map(adverts: Seq<AdvertView>)
    ensures
        desks_of(adverts) == adverts.filter_map(|a: AdvertView| desk_of(a)),
    decreases adverts.len(),
{
    if adverts.len() > 0 {
        lemma_desks_are_filter_map(adverts.drop_last());
    }
}

/// Scanning two batches of advertisements one after the other reports the
/// desks of the first batch, then those of the second.
pub proof fn lemma_desks_of_concat(s: Seq<AdvertView>, t: Seq<AdvertView>)
    ensures
        desks_of(s + t) == desks_of(s) + desks_of(t),
    decreases t.len(),
{
    if t.len() == 0 {
        assert(s + t == s);
    } else {
        lemma_desks_of_concat(s, t.drop_last());
        assert((s + t).drop_last() == s + t.drop_last());
        assert((s + t).last() == t.last());
    }
}

/// No desk is dropped: the number of desks reported is the number of
/// advertisements that announce one, and an advertisement that announces a
/// desk, appended to a scan, is reported last.
pub proof fn lemma_every_desk_reported(adverts: Seq<AdvertView>, a: AdvertView)
    ensures
        desks_of(adverts).len() == adverts.filter(|x: AdvertView| desk_of(x) is Some).len(),
        desk_of(a) matches Some(d) ==> desks_of(adverts.push(a)) == desks_of(adverts).push(d),
        desk_of(a) is None ==> desks_of(adverts.push(a)) == desks_of(adverts),
    decreases adverts.len(),
{
    let pred = |x: AdvertView| desk_of(x) is Some;
    reveal(Seq::filter);
    if adverts.len() > 0 {
        lemma_every_desk_reported(adverts.drop_last(), a);
        assert(desks_of(adverts.drop_last()).len() == adverts.drop_last().filter(pred).len());
        assert(adverts.filter(pred) == if pred(adverts.last()) {
            adverts.drop_last().filter(pred).push(adverts.last())
        } else {
            adverts.drop_last().filter(pred)
        });
    } else {
        assert(adverts.filter(pred) == adverts);
    }
    assert(adverts.push(a).drop_last() == adverts);
}

/// Every desk a scan reports has a desk's name.
pub proof fn lemma_only_desks_reported(adverts: Seq<AdvertView>)
    ensures
        forall|i: int| 0 <= i < desks_of(adverts).len() ==> is_desk_name_spec(#[trigger] desks_of(adverts)[i].name),
    decreases adverts.len(),
{
    if adverts.len() > 0 {
        lemma_only_desks_reported(adverts.drop_last());
    }
}

/// The index of the first `uuid` in `uuids`, if there is one.
pub open spec fn first_index(uuids: Seq<u128>, uuid: u128) -> Option<int>
    decreases uuids.len(),
{
    if uuids.len() == 0 {
        None
    } else {
        match first_index(uuids.drop_last(), uuid) {
            Some(i) => Some(i),
            None => if uuids.last() == uuid {
                Some(uuids.len() - 1)
            } else {
                None
            },
        }
    }
}

/// Find the first characteristic with a given UUID.
pub fn find_characteristic(uuids: &Vec<u128>, uuid: u128) -> (r: Option<usize>)
    ensures
        match first_index(uuids@, uuid) {
            Some(i) => 0 <= i < uuids@.len() && r == Some(i as usize),
            None => r is None,
        },
        r matches Some(x) ==> first_index(uuids@, uuid) == Some(x as int),
{
    let mut i: usize = 0;
    while i < uuids.len()
        invariant
            i <= uuids@.len(),
            first_index(uuids@.take(i as int), uuid) is None,
        decreases uuids@.len() - i,
    {
        proof {
            assert(uuids@.take(i + 1).drop_last() == uuids@.take(i as int));
        }
        if uuids[i] == uuid {
            proof {
                lemma_first_index_prefix(uuids@, i as int + 1, uuid);
                assert(first_index(uuids@.take(i + 1), uuid) == Some(i as int));
            }
            return Some(i);
        }
        i = i + 1;
    }
    proof {
        assert(uuids@.take(uuids@.len() as int) == uuids@);
    }
    None
}

/// A first occurrence within a prefix is the first occurrence overall.
proof fn lemma_first_index_prefix(s: Seq<u128>, n: int, u: u128)
    requires
        0 <= n <= s.len(),
        first_index(s.take(n), u) is Some,
    ensures
        first_index(s, u) == first_index(s.take(n), u),
    decreases s.len() - n,
{
    if n < s.len() {
        assert(s.take(n + 1).drop_last() == s.take(n));
        lemma_first_index_prefix(s, n + 1, u);
    } else {
        assert(s.take(n) == s);
    }
}

/// `16^n`.
pub open spec fn pow16(n: nat) -> int
    decreases n,
{
    if n == 0 {
        1
    } else {
        16 * pow16((n - 1) as nat)
    }
}

/// The `i`-th hexadecimal digit of `u`, counting from the most significant
/// (`0 <= i < 32`).
pub open spec fn hex_nibble(u: u128, i: int) -> int {
    (u as int / pow16((31 - i) as nat)) % 16
}

/// The lower-case hexadecimal character of a digit value `0..16`.
pub open spec fn lower_hex_char(n: int) -> char {
    if n < 10 {
        (0x30 + n) as char
    } else {
        (0x61 + n - 10) as char
    }
}

/// Whether position `k` of a hyphenated UUID holds a hyphen.
pub open spec fn is_uuid_hyphen(k: int) -> bool {
    k == 8 || k == 13 || k == 18 || k == 23
}

/// Which hexadecimal digit position `k` of a hyphenated UUID shows.
pub open spec fn uuid_digit_at(k: int) -> int {
    if k < 8 {
        k
    } else if k < 13 {
        k - 1
    } else if k < 18 {
        k - 2
    } else if k < 23 {
        k - 3
    } else {
        k - 4
    }
}

/// The canonical text of a UUID: its 32 hexadecimal digits, most significant
/// first, in lower case, grouped 8-4-4-4-12 by hyphens.
pub open spec fn hyphenated_uuid(u: u128) -> Seq<char> {
    Seq::new(36, |k: int| if is_uuid_hyphen(k) {
        '-'
    } else {
        lower_hex_char(hex_nibble(u, uuid_digit_at(k)))
    })
}

/// `uuid::Uuid::from_u128(u).to_string()`: the UUID whose big-endian value is
/// `u`, displayed. Its `Display` writes the hyphenated lower-case form, which
/// the contract claims.
#[verifier::external_body]
fn uuid_text(u: u128) -> (s: String)
    ensures
        s@ == hyphenated_uuid(u),
{
    uuid::Uuid::from_u128(u).to_string()
}

/// A desk lacks a characteristic the controller needs.
#[derive(Clone, Copy, Debug, PartialEq, Eq, Structural)]
pub struct MissingCharacteristic {
    pub uuid: u128,
}

impl MissingCharacteristic {
    /// The error's message: `missing characteristic <uuid>`.
    pub fn message(&self) -> (m: String)
        ensures
            m@ == "missing characteristic "@ + hyphenated_uuid(self.uuid),
    {
        let text = uuid_text(self.uuid);
        String::from_str("missing characteristic ").concat(text.as_str())
    }
}

/// What [`first_index`] finds: nothing exactly when `uuid` does not occur,
/// and otherwise the least index at which it occurs.
pub proof fn lemma_first_index_is_least(uuids: Seq<u128>, uuid: u128)
    ensures
        first_index(uuids, uuid) is None <==> forall|i: int| 0 <= i < uuids.len() ==> uuids[i] != uuid,
        first_index(uuids, uuid) matches Some(j) ==> {
            &&& 0 <= j < uuids.len()
            &&& uuids[j] == uuid
            &&& forall|k: int| 0 <= k < j ==> uuids[k] != uuid
        },
        forall|i: int| 0 <= i < uuids.len() && uuids[i] == uuid
            ==> (first_index(uuids, uuid) matches Some(j) && j <= i),
    decreases uuids.len(),
{
    if uuids.len() > 0 {
        let rest = uuids.drop_last();
        lemma_first_index_is_least(rest, uuid);
        assert forall|i: int| 0 <= i < rest.len() implies rest[i] == uuids[i] by {}
        if first_index(rest, uuid) is None {
            assert forall|i: int| 0 <= i < uuids.len() - 1 implies uuids[i] != uuid by {
                assert(rest[i] == uuids[i]);
            }
        }
    }
}

/// Where the three characteristics the controller uses sit in a desk's list.
#[derive(Clone, Copy, Debug)]
pub struct CharacteristicSlots {
    /// Direct up/down/stop writes.
    pub move_c: usize,
    /// Height and speed notifications.
    pub refout_c: usize,
    /// Release / move-to-target writes.
    pub refin_c: usize,
}

/// Locate the move, reference-out and reference-in characteristics (the
/// first of each). When one is missing, the error names the first missing
/// one in that order.
pub fn locate_characteristics(uuids: &Vec<u128>) -> (r: Result<CharacteristicSlots, MissingCharacteristic>)
    ensures
        match r {
            Ok(slots) => {
                &&& first_index(uuids@, CHARACTERISTIC_MOVE) == Some(slots.move_c as int)
                &&& first_index(uuids@, CHARACTERISTIC_REFERENCE_OUT) == Some(slots.refout_c as int)
                &&& first_index(uuids@, CHARACTERISTIC_REFERENCE_IN) == Some(slots.refin_c as int)
            },
            Err(e) => {
                let missing = e.uuid;
                ||| missing == CHARACTERISTIC_MOVE && first_index(uuids@, CHARACTERISTIC_MOVE) is None
                ||| missing == CHARACTERISTIC_REFERENCE_OUT && first_index(uuids@, CHARACTERISTIC_MOVE) is Some
                    && first_index(uuids@, CHARACTERISTIC_REFERENCE_OUT) is None
                ||| missing == CHARACTERISTIC_REFERENCE_IN && first_index(uuids@, CHARACTERISTIC_MOVE) is Some
                    && first_index(uuids@, CHARACTERISTIC_REFERENCE_OUT) is Some
                    && first_index(uuids@, CHARACTERISTIC_REFERENCE_IN) is None
            },
        },
{
    let move_c = match find_characteristic(uuids, CHARACTERISTIC_MOVE) {
        Some(i) => i,
        None => return Err(MissingCharacteristic { uuid: CHARACTERISTIC_MOVE }),
    };
    let refout_c = match find_characteristic(uuids, CHARACTERISTIC_REFERENCE_OUT) {
        Some(i) => i,
        None => return Err(MissingCharacteristic { uuid: CHARACTERISTIC_REFERENCE_OUT }),
    };
    let refin_c = match find_characteristic(uuids, CHARACTERISTIC_REFERENCE_IN) {
        Some(i) => i,
        None => return Err(MissingCharacteristic { uuid: CHARACTERISTIC_REFERENCE_IN }),
    };
    Ok(CharacteristicSlots { move_c, refout_c, refin_c })
}

/// Whether a notification from characteristic `uuid` carries height and
/// speed.
pub fn is_height_notification(uuid: u128) -> (r: bool)
    ensures
        r == (uuid == CHARACTERISTIC_REFERENCE_OUT),
{
    uuid == CHARACTERISTIC_REFERENCE_OUT
}

/// Whether a Bluetooth change tears down the live link: the radio went off
/// while connected. The new state is recorded first either way.
pub fn should_disconnect(state: BluetoothState, connected: bool) -> (r: bool)
    ensures
        r == (state == BluetoothState::Off && connected),
{
    match state {
        BluetoothState::Off => connected,
        BluetoothState::Ready => false,
    }
}

/// Where a connect attempt stands.
#[derive(Clone, Copy, Debug, PartialEq, Eq, Structural)]
pub enum ConnectStage {
    /// Not begun: the caller checks whether a desk is already connected.
    Start,
    /// Scanning for the peripheral with the wanted address.
    Finding,
    /// Bonding with the desk.
    Pairing,
    /// Bringing the link up.
    Linking,
    /// Discovering characteristics and subscribing to height notifications.
    SettingUp,
    /// Over.
    Finished,
}

/// What the caller observed after the last action.
pub enum ConnectEvent {
    /// The attempt holds the connect lock; whether a desk is connected.
    Begun { already_connected: bool },
    /// The peripheral was found, with the name it advertised.
    Found { local_name: Option<String> },
    /// The peripheral was not found, or the scan failed.
    NotFound,
    /// Bonding finished.
    Paired { ok: bool },
    /// The link came up or not.
    Linked { ok: bool },
    /// Characteristic setup finished.
    SetUp { ok: bool },
}

/// What the caller does next.
pub enum ConnectAction {
    /// A desk is already connected: the attempt succeeds without a report.
    AlreadyConnected,
    /// Stop any streaming scan, report `Connecting` (with the name and
    /// address the caller was given), then look for the peripheral.
    Discover,
    /// Bond with the found desk.
    Pair,
    /// Connect to the peripheral.
    Link,
    /// Discover characteristics, subscribe, start the notification task.
    SetUp,
    /// The attempt failed: report `Disconnected` when asked to, drop the link
    /// when it was up, and return `false`.
    Fail { report_disconnected: bool, drop_link: bool },
    /// The attempt succeeded: report `Connected` with this name and the
    /// address, and return `true`.
    Connected { name: String },
}

/// One connect attempt, driven by the caller one step at a time.
pub struct ConnectAttempt {
    address: String,
    emit_failure: bool,
    stage: ConnectStage,
    found_name: Option<String>,
}

/// The abstract content of a [`ConnectAttempt`].
pub struct ConnectAttemptView {
    pub address: Seq<char>,
    pub emit_failure: bool,
    pub stage: ConnectStage,
    pub found_name: Option<Seq<char>>,
}

impl View for ConnectAttempt {
    type V = ConnectAttemptView;

    closed spec fn view(&self) -> ConnectAttemptView {
        ConnectAttemptView {
            address: self.address@,
            emit_failure: self.emit_failure,
            stage: self.stage,
            found_name: match self.found_name {
                Some(n) => Some(n@),
                None => None,
            },
        }
    }
}

/// Whether `event` is one the attempt can receive at `stage`.
pub open spec fn accepts(stage: ConnectStage, event: ConnectEvent) -> bool {
    match event {
        ConnectEvent::Begun { .. } => stage == ConnectStage::Start,
        ConnectEvent::Found { .. } => stage == ConnectStage::Finding,
        ConnectEvent::NotFound => stage == ConnectStage::Finding,
        ConnectEvent::Paired { .. } => stage == ConnectStage::Pairing,
        ConnectEvent::Linked { .. } => stage == ConnectStage::Linking,
        ConnectEvent::SetUp { .. } => stage == ConnectStage::SettingUp,
    }
}

/// Whether `action` is the failure of an attempt that reports failures iff
/// `emit_failure`, dropping the link iff `drop_link`.
pub open spec fn is_failure(action: ConnectAction, emit_failure: bool, drop_link: bool) -> bool {
    action matches ConnectAction::Fail { report_disconnected: r, drop_link: d } && r == emit_failure && d == drop_link
}

impl ConnectAttempt {
    /// A new attempt on `address`. With `emit_failure` a failure reports
    /// `Disconnected`; without, the host stays on "Connecting" between tries.
    pub fn new(address: &str, emit_failure: bool) -> (a: ConnectAttempt)
        ensures
            a@.address == address@,
            a@.emit_failure == emit_failure,
            a@.stage == ConnectStage::Start,
            a@.found_name is None,
    {
        ConnectAttempt { address: address.to_owned(), emit_failure, stage: ConnectStage::Start, found_name: None }
    }

    /// Where the attempt stands.
    pub fn stage(&self) -> (s: ConnectStage)
        ensures
            s == self@.stage,
    {
        self.stage
    }

    /// Take what the caller observed and decide the next action.
    pub fn step(&mut self, event: ConnectEvent) -> (action: ConnectAction)
        requires
            accepts(old(self)@.stage, event),
        ensures
            final(self)@.address == old(self)@.address,
            final(self)@.emit_failure == old(self)@.emit_failure,
            !(event is Found) ==> final(self)@.found_name == old(self)@.found_name,
            match event {
                ConnectEvent::Begun { already_connected } => if already_connected {
                    action is AlreadyConnected && final(self)@.stage == ConnectStage::Finished
                } else {
                    action is Discover && final(self)@.stage == ConnectStage::Finding
                },
                ConnectEvent::Found { local_name } => {
                    &&& action is Pair
                    &&& final(self)@.stage == ConnectStage::Pairing
                    &&& final(self)@.found_name == match local_name {
                        Some(n) => Some(n@),
                        None => None::<Seq<char>>,
                    }
                },
                ConnectEvent::NotFound => is_failure(action, old(self)@.emit_failure, false)
                    && final(self)@.stage == ConnectStage::Finished,
                ConnectEvent::Paired { ok } => if ok {
                    action is Link && final(self)@.stage == ConnectStage::Linking
                } else {
                    is_failure(action, old(self)@.emit_failure, false) && final(self)@.stage == ConnectStage::Finished
                },
                ConnectEvent::Linked { ok } => if ok {
                    action is SetUp && final(self)@.stage == ConnectStage::SettingUp
                } else {
                    is_failure(action, old(self)@.emit_failure, false) && final(self)@.stage == ConnectStage::Finished
                },
                ConnectEvent::SetUp { ok } => if ok {
                    &&& action matches ConnectAction::Connected { name } && name@ == match old(self)@.found_name {
                        Some(n) => n,
                        None => old(self)@.address,
                    }
                    &&& final(self)@.stage == ConnectStage::Finished
                } else {
                    is_failure(action, old(self)@.emit_failure, true) && final(self)@.stage == ConnectStage::Finished
                },
            },
    {
        let fail = ConnectAction::Fail { report_disconnected: self.emit_failure, drop_link: false };
        match event {
            ConnectEvent::Begun { already_connected } => {
                if already_connected {
                    self.stage = ConnectStage::Finished;
                    ConnectAction::AlreadyConnected
                } else {
                    self.stage = ConnectStage::Finding;
                    ConnectAction::Discover
                }
            },
            ConnectEvent::Found { local_name } => {
                self.found_name = local_name;
                self.stage = ConnectStage::Pairing;
                ConnectAction::Pair
            },
            ConnectEvent::NotFound => {
                self.stage = ConnectStage::Finished;
                fail
            },
            ConnectEvent::Paired { ok } => {
                if ok {
                    self.stage = ConnectStage::Linking;
                    ConnectAction::Link
                } else {
                    self.stage = ConnectStage::Finished;
                    fail
                }
            },
            ConnectEvent::Linked { ok } => {
                if ok {
                    self.stage = ConnectStage::SettingUp;
                    ConnectAction::SetUp
                } else {
                    self.stage = ConnectStage::Finished;
                    fail
                }
            },
            ConnectEvent::SetUp { ok } => {
                self.stage = ConnectStage::Finished;
                if ok {
                    let name = match &self.found_name {
                        Some(n) => n.clone(),
                        None => self.address.clone(),
                    };
                    ConnectAction::Connected { name }
                } else {
                    ConnectAction::Fail { report_disconnected: self.emit_failure, drop_link: true }
                }
            },
        }
    }
}

} // verus!
