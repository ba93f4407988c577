//! Native Instruments Komplete Kontrol S-series MK2 lightguide protocol.
//!
//! USB device identity (VID 0x17CC = Native Instruments):
//!   PID 0x1610  Komplete Kontrol S49 MK2
//!   PID 0x1620  Komplete Kontrol S61 MK2
//!   PID 0x1630  Komplete Kontrol S88 MK2
//!
//! Wire protocol (MK2):
//!   - Init: a single 3-byte HID report `[0xa0, 0x00, 0x00]`.
//!   - Light update: a 250-byte HID report `[0x81, c0, c1, ..., c248]` where
//!     0x81 is the light-update report ID and c0..c248 are palette indices for
//!     keys 0..248. Keys beyond the keyboard's physical range are ignored by
//!     the device.
//!
//! Palette (partial):
//!     Low   Medium High  Saturated
//!     0x04  0x05   0x06  0x07   RED
//!     0x08  0x09   0x0a  0x0b   ORANGE
//!     0x0c  0x0d   0x0e  0x0f   LIGHT ORANGE
//!     0x10  0x11   0x12  0x13   YELLOW
//!     0x14  0x15   0x16  0x17   GOLD
//!     0x18  0x19   0x1a  0x1b   LIGHT GREEN
//!     0x1c  0x1d   0x1e  0x1f   GREEN
//!     0x2c  0x2d   0x2e  0x2f   BLUE
//!
//! A driver keeps the colour of every key in a [`KeyFrame`] and sends the
//! whole frame as one light-update report after each change.

use vstd::prelude::*;

pub mod palette;

verus! {

/// Native Instruments USB vendor ID.
pub const VID: u16 = 0x17CC;

/// All known Komplete Kontrol MK2 product IDs, in the order they are tried.
pub const MK2_PIDS: [u16; 3] = [0x1610, 0x1620, 0x1630];

/// Light-update payload length in bytes (the report ID byte not included).
pub const LIGHT_PAYLOAD_LEN: usize = 249;

/// Report ID for light-update writes.
pub const REPORT_ID_LIGHT: u8 = 0x81;

/// Init handshake bytes, written once after open, before any light update.
pub const INIT_HANDSHAKE: [u8; 3] = [0xa0, 0x00, 0x00];

/// The frame in which every key has colour `color`.
pub open spec fn uniform_frame(color: u8) -> Seq<u8> {
    Seq::new(LIGHT_PAYLOAD_LEN as nat, |i: int| color)
}

/// The frame after setting one key: keys outside the payload are ignored.
pub open spec fn frame_with_key(frame: Seq<u8>, key: u8, color: u8) -> Seq<u8> {
    if (key as int) < LIGHT_PAYLOAD_LEN {
        frame.update(key as int, color)
    } else {
        frame
    }
}

/// The light-update report that carries a frame.
pub open spec fn light_report_of(frame: Seq<u8>) -> Seq<u8> {
    seq![REPORT_ID_LIGHT].add(frame)
}

/// The colour of every key of the lightguide, one palette index per key.
pub struct KeyFrame {
    keys: [u8; LIGHT_PAYLOAD_LEN],
}

impl View for KeyFrame {
    type V = Seq<u8>;

    closed spec fn view(&self) -> Seq<u8> {
        self.keys@
    }
}

impl KeyFrame {
    /// A frame with every key off.
    pub fn new() -> (frame: KeyFrame)
        ensures
            frame@ == uniform_frame(palette::OFF),
    {
        let frame = KeyFrame { keys: [palette::OFF; LIGHT_PAYLOAD_LEN] };
        assert(frame@ =~= uniform_frame(palette::OFF));
        frame
    }

    /// The number of keys in a frame.
    pub fn len(&self) -> (n: usize)
        ensures
            n == self@.len(),
            n == LIGHT_PAYLOAD_LEN,
    {
        LIGHT_PAYLOAD_LEN
    }

    /// The colour of one key, or `None` for a key outside the payload.
    pub fn color_of(&self, key: u8) -> (color: Option<u8>)
        ensures
            self@.len() == LIGHT_PAYLOAD_LEN,
            color == (if (key as int) < LIGHT_PAYLOAD_LEN {
                Some(self@[key as int])
            } else {
                None
            }),
    {
        if (key as usize) < LIGHT_PAYLOAD_LEN {
            Some(self.keys[key as usize])
        } else {
            None
        }
    }

    /// Set a single key, leaving the others as they are. A key outside the
    /// payload is silently ignored.
    pub fn set_one(&mut self, key: u8, color: u8)
        ensures
            final(self)@ == frame_with_key(old(self)@, key, color),
            final(self)@.len() == LIGHT_PAYLOAD_LEN,
    {
        if (key as usize) < LIGHT_PAYLOAD_LEN {
            self.keys[key as usize] = color;
        }
    }

    /// Give every key the same colour.
    pub fn set_all(&mut self, color: u8)
        ensures
            final(self)@ == uniform_frame(color),
    {
        let mut i: usize = 0;
        while i < LIGHT_PAYLOAD_LEN
            invariant
                i <= LIGHT_PAYLOAD_LEN,
                forall|j: int| 0 <= j < i ==> self.keys@[j] == color,
            decreases LIGHT_PAYLOAD_LEN - i,
        {
            self.keys[i] = color;
            i = i + 1;
        }
        assert(self.keys@ =~= uniform_frame(color));
    }

    /// Turn every key off.
    pub fn set_off(&mut self)
        ensures
            final(self)@ == uniform_frame(palette::OFF),
    {
        self.set_all(palette::OFF);
    }

    /// The light-update report that shows this frame on the device.
    pub fn light_report(&self) -> (report: Vec<u8>)
        ensures
            report@ == light_report_of(self@),
            report@.len() == LIGHT_PAYLOAD_LEN + 1,
    {
        let mut report: Vec<u8> = Vec::new();
        report.push(REPORT_ID_LIGHT);
        let mut i: usize = 0;
        while i < LIGHT_PAYLOAD_LEN
            invariant
                i <= LIGHT_PAYLOAD_LEN,
                report@ =~= seq![REPORT_ID_LIGHT].add(self.keys@.take(i as int)),
            decreases LIGHT_PAYLOAD_LEN - i,
        {
            report.push(self.keys[i]);
            i = i + 1;
            assert(self.keys@.take(i as int) =~= self.keys@.take(i - 1).push(self.keys@[i - 1]));
        }
        assert(self.keys@.take(LIGHT_PAYLOAD_LEN as int) =~= self.keys@);
        report
    }
}

/// The init handshake report.
pub fn init_report() -> (report: Vec<u8>)
    ensures
        report@ == seq![0xa0u8, 0x00u8, 0x00u8],
        report@ == INIT_HANDSHAKE@,
{
    let mut report: Vec<u8> = Vec::new();
    let mut i: usize = 0;
    while i < 3
        invariant
            i <= 3,
            report@ =~= INIT_HANDSHAKE@.take(i as int),
        decreases 3 - i,
    {
        report.push(INIT_HANDSHAKE[i]);
        i = i + 1;
        assert(INIT_HANDSHAKE@.take(i as int) =~= INIT_HANDSHAKE@.take(i - 1).push(INIT_HANDSHAKE@[i - 1]));
    }
    assert(INIT_HANDSHAKE@.take(3) =~= INIT_HANDSHAKE@);
    report
}

/// Whether a USB identity is one of the supported Komplete Kontrol MK2 models.
pub open spec fn is_kk_mk2_id(vendor_id: u16, product_id: u16) -> bool {
    vendor_id == VID && MK2_PIDS@.contains(product_id)
}

/// Whether a USB identity is one of the supported Komplete Kontrol MK2 models.
pub fn is_kk_mk2(vendor_id: u16, product_id: u16) -> (found: bool)
    ensures
        found == is_kk_mk2_id(vendor_id, product_id),
{
    if vendor_id != VID {
        return false;
    }
    let mut i: usize = 0;
    while i < 3
        invariant
            i <= 3,
            vendor_id == VID,
            forall|j: int| 0 <= j < i ==> MK2_PIDS@[j] != product_id,
        decreases 3 - i,
    {
        if MK2_PIDS[i] == product_id {
            assert(MK2_PIDS@[i as int] == product_id);
            assert(MK2_PIDS@.contains(product_id));
            return true;
        }
        i = i + 1;
    }
    assert(!MK2_PIDS@.contains(product_id));
    false
}

/// One entry of a HID device enumeration: its USB identity and the
/// platform path under which it can be opened (without the trailing NUL).
pub struct DeviceEntry {
    pub vendor_id: u16,
    pub product_id: u16,
    pub path: Vec<u8>,
}

/// The path of the first Komplete Kontrol MK2 in an enumeration, if any.
pub open spec fn first_kk_mk2_path(devices: Seq<DeviceEntry>) -> Option<Seq<u8>>
    decreases devices.len(),
{
    if devices.len() == 0 {
        None
    } else if is_kk_mk2_id(devices[0].vendor_id, devices[0].product_id) {
        Some(devices[0].path@)
    } else {
        first_kk_mk2_path(devices.drop_first())
    }
}

/// A copy of a byte string.
pub fn copy_bytes(bytes: &Vec<u8>) -> (copy: Vec<u8>)
    ensures
        copy@ == bytes@,
{
    let mut copy: Vec<u8> = Vec::new();
    let mut i: usize = 0;
    while i < bytes.len()
        invariant
            i <= bytes@.len(),
            copy@ =~= bytes@.take(i as int),
        decreases bytes@.len() - i,
    {
        copy.push(bytes[i]);
        i = i + 1;
        assert(bytes@.take(i as int) =~= bytes@.take(i - 1).push(bytes@[i - 1]));
    }
    assert(bytes@.take(bytes@.len() as int) =~= bytes@);
    copy
}

/// The path of the first Komplete Kontrol MK2 in a device enumeration, in
/// enumeration order, or `None` when no supported device is present.
pub fn find_kk_mk2_path(devices: &Vec<DeviceEntry>) -> (path: Option<Vec<u8>>)
    ensures
        path is None <==> first_kk_mk2_path(devices@) is None,
        path matches Some(p) ==> first_kk_mk2_path(devices@) == Some(p@),
{
    let mut i: usize = 0;
    assert(devices@.skip(0) =~= devices@);
    while i < devices.len()
        invariant
            i <= devices@.len(),
            first_kk_mk2_path(devices@) == first_kk_mk2_path(devices@.skip(i as int)),
        decreases devices@.len() - i,
    {
        assert(devices@.skip(i as int)[0] == devices@[i as int]);
        if is_kk_mk2(devices[i].vendor_id, devices[i].product_id) {
            return Some(copy_bytes(&devices[i].path));
        }
        assert(devices@.skip(i as int).drop_first() =~= devices@.skip(i + 1));
        i = i + 1;
    }
    assert(devices@.skip(i as int).len() == 0);
    None
}

/// What to do next while looking for a device to open.
pub enum OpenAction {
    /// Try to open the device with this USB identity.
    Try { vendor_id: u16, product_id: u16 },
    /// A device was opened: the search is over.
    Opened { product_id: u16 },
    /// Every supported model was tried and none could be opened.
    NotFound { error: String },
}

/// The error reported when there was nothing to try.
pub open spec fn not_found_message() -> Seq<char> {
    "no Komplete Kontrol MK2 device found (looked for VID 0x17CC, PIDs [5648, 5664, 5680])"@
}

/// The search for the first Komplete Kontrol MK2 that opens: the models are
/// tried in the order of [`MK2_PIDS`]; the first that opens ends the search,
/// and when none does, the search fails with the last open error.
pub struct OpenSearch {
    attempts: usize,
    last_error: Option<String>,
    opened: Option<u16>,
}

impl OpenSearch {
    /// How many open attempts have failed so far.
    pub closed spec fn failed_attempts(&self) -> nat {
        self.attempts as nat
    }

    /// The error of the last failed attempt.
    pub closed spec fn last_error(&self) -> Option<Seq<char>> {
        match self.last_error {
            Some(e) => Some(e@),
            None => None,
        }
    }

    /// The product ID of the model that opened, once one has.
    pub closed spec fn opened(&self) -> Option<u16> {
        self.opened
    }

    #[verifier::type_invariant]
    closed spec fn well_formed(&self) -> bool {
        &&& self.attempts <= 3
        &&& self.opened matches Some(p) ==> self.attempts < 3 && p == MK2_PIDS@[self.attempts as int]
    }

    /// A search that has tried nothing yet.
    pub fn new() -> (search: OpenSearch)
        ensures
            search.failed_attempts() == 0,
            search.last_error() is None,
            search.opened() is None,
    {
        OpenSearch { attempts: 0, last_error: None, opened: None }
    }

    /// Whether the search is over, by success or by failure.
    pub fn is_finished(&self) -> (finished: bool)
        ensures
            finished == (self.opened() is Some || self.failed_attempts() >= 3),
    {
        self.opened.is_some() || self.attempts >= 3
    }

    /// The next step of the search.
    pub fn next_action(&self) -> (action: OpenAction)
        ensures
            self.failed_attempts() <= 3,
            match action {
                OpenAction::Try { vendor_id, product_id } => {
                    &&& self.opened() is None
                    &&& self.failed_attempts() < 3
                    &&& vendor_id == VID
                    &&& product_id == MK2_PIDS@[self.failed_attempts() as int]
                },
                OpenAction::Opened { product_id } => self.opened() == Some(product_id),
                OpenAction::NotFound { error } => {
                    &&& self.opened() is None
                    &&& self.failed_attempts() == 3
                    &&& error@ == (match self.last_error() {
                        Some(e) => e,
                        None => not_found_message(),
                    })
                },
            },
    {
        proof {
            use_type_invariant(self);
        }
        match self.opened {
            Some(product_id) => OpenAction::Opened { product_id },
            None => {
                if self.attempts < 3 {
                    OpenAction::Try { vendor_id: VID, product_id: MK2_PIDS[self.attempts] }
                } else {
                    match &self.last_error {
                        Some(e) => OpenAction::NotFound { error: e.clone() },
                        None => OpenAction::NotFound {
                            error: String::from_str(
                                "no Komplete Kontrol MK2 device found (looked for VID 0x17CC, PIDs [5648, 5664, 5680])",
                            ),
                        },
                    }
                }
            },
        }
    }

    /// Record the outcome of the attempt that [`OpenSearch::next_action`]
    /// asked for: success ends the search, an error moves on to the next model.
    pub fn record_attempt(&mut self, result: Result<(), String>)
        requires
            old(self).opened() is None,
            old(self).failed_attempts() < 3,
        ensures
            match result {
                Ok(()) => {
                    &&& final(self).opened() == Some(MK2_PIDS@[old(self).failed_attempts() as int])
                    &&& final(self).failed_attempts() == old(self).failed_attempts()
                    &&& final(self).last_error() == old(self).last_error()
                },
                Err(e) => {
                    &&& final(self).opened() is None
                    &&& final(self).failed_attempts() == old(self).failed_attempts() + 1
                    &&& final(self).last_error() == Some(e@)
                },
            },
    {
        match result {
            Ok(()) => {
                let pid = MK2_PIDS[self.attempts];
                self.opened = Some(pid);
            },
            Err(e) => {
                self.last_error = Some(e);
                self.attempts = self.attempts + 1;
            },
        }
    }
}

/// Setting one key changes that key and no other; a key outside the payload
/// changes nothing.
pub proof fn lemma_set_one_touches_only_its_key(frame: Seq<u8>, key: u8, color: u8, other: int)
    requires
        frame.len() == LIGHT_PAYLOAD_LEN,
        0 <= other < LIGHT_PAYLOAD_LEN,
        other != key as int,
    ensures
        frame_with_key(frame, key, color).len() == LIGHT_PAYLOAD_LEN,
        frame_with_key(frame, key, color)[other] == frame[other],
        (key as int) < LIGHT_PAYLOAD_LEN ==> frame_with_key(frame, key, color)[key as int] == color,
        (key as int) >= LIGHT_PAYLOAD_LEN ==> frame_with_key(frame, key, color) == frame,
{
}

/// Lighting one key on a cleared frame gives a frame with that key lit and
/// every other key off.
pub proof fn lemma_single_key_on_cleared_frame(key: u8, color: u8, other: int)
    requires
        (key as int) < LIGHT_PAYLOAD_LEN,
        0 <= other < LIGHT_PAYLOAD_LEN,
        other != key as int,
    ensures
        frame_with_key(uniform_frame(palette::OFF), key, color)[key as int] == color,
        frame_with_key(uniform_frame(palette::OFF), key, color)[other] == palette::OFF,
{
}

/// A light-update report is the report ID followed by the colour of every
/// key, in key order.
pub proof fn lemma_light_report_layout(frame: Seq<u8>, key: int)
    requires
        frame.len() == LIGHT_PAYLOAD_LEN,
        0 <= key < LIGHT_PAYLOAD_LEN,
    ensures
        light_report_of(frame).len() == LIGHT_PAYLOAD_LEN + 1,
        light_report_of(frame)[0] == REPORT_ID_LIGHT,
        light_report_of(frame)[key + 1] == frame[key],
{
}

/// Setting every key to a colour lights the whole payload in that colour:
/// the report of a uniform frame is the report ID and 249 equal bytes.
pub proof fn lemma_uniform_report(color: u8, key: int)
    requires
        0 <= key < LIGHT_PAYLOAD_LEN,
    ensures
        light_report_of(uniform_frame(color))[key + 1] == color,
        light_report_of(uniform_frame(color))[0] == REPORT_ID_LIGHT,
{
}

/// A device counts as a Komplete Kontrol MK2 exactly when its vendor is
/// Native Instruments (0x17CC) and its product ID is one of the three MK2
/// IDs 0x1610, 0x1620 and 0x1630.
pub proof fn lemma_kk_mk2_identity(vendor_id: u16, product_id: u16)
    ensures
        is_kk_mk2_id(vendor_id, product_id) <==> listed_mk2_identity(vendor_id, product_id),
{
    assert(MK2_PIDS@[0] == 0x1610u16 && MK2_PIDS@[1] == 0x1620u16 && MK2_PIDS@[2] == 0x1630u16);
    assert(MK2_PIDS@.len() == 3);
    if MK2_PIDS@.contains(product_id) {
        let i = choose|i: int| 0 <= i < MK2_PIDS@.len() && MK2_PIDS@[i] == product_id;
    }
    if product_id == 0x1610 {
        assert(MK2_PIDS@[0] == product_id);
    }
    if product_id == 0x1620 {
        assert(MK2_PIDS@[1] == product_id);
    }
    if product_id == 0x1630 {
        assert(MK2_PIDS@[2] == product_id);
    }
}

/// Vendor 0x17CC with one of the product IDs 0x1610, 0x1620, 0x1630.
pub open spec fn listed_mk2_identity(vendor_id: u16, product_id: u16) -> bool {
    vendor_id == 0x17CC && (product_id == 0x1610 || product_id == 0x1620 || product_id == 0x1630)
}

/// The path found in an enumeration is that of its first device with vendor
/// 0x17CC and one of the three MK2 product IDs; when there is none, nothing
/// is found. Other devices, of the same vendor too, are passed over.
pub proof fn lemma_first_kk_mk2_path_is_first_mk2(devices: Seq<DeviceEntry>)
    ensures
        first_kk_mk2_path(devices) matches Some(p) ==> exists|i: int|
            0 <= i < devices.len() && #[trigger] devices[i].path@ == p
                && listed_mk2_identity(devices[i].vendor_id, devices[i].product_id)
                && forall|j: int| 0 <= j < i ==> !listed_mk2_identity(#[trigger] devices[j].vendor_id, devices[j].product_id),
        first_kk_mk2_path(devices) is None <==> forall|j: int|
            0 <= j < devices.len() ==> !listed_mk2_identity(#[trigger] devices[j].vendor_id, devices[j].product_id),
    decreases devices.len(),
{
    if devices.len() > 0 {
        lemma_kk_mk2_identity(devices[0].vendor_id, devices[0].product_id);
        let rest = devices.drop_first();
        lemma_first_kk_mk2_path_is_first_mk2(rest);
        if !is_kk_mk2_id(devices[0].vendor_id, devices[0].product_id) {
            if let Some(p) = first_kk_mk2_path(rest) {
                let i = choose|i: int|
                    0 <= i < rest.len() && #[trigger] rest[i].path@ == p
                        && listed_mk2_identity(rest[i].vendor_id, rest[i].product_id)
                        && forall|j: int| 0 <= j < i ==> !listed_mk2_identity(#[trigger] rest[j].vendor_id, rest[j].product_id);
                assert(devices[i + 1] == rest[i]);
                assert forall|j: int| 0 <= j < i + 1 implies !listed_mk2_identity(
                    #[trigger] devices[j].vendor_id,
                    devices[j].product_id,
                ) by {
                    if j > 0 {
                        assert(devices[j] == rest[j - 1]);
                    }
                }
                assert(devices[i + 1].path@ == p);
            } else {
                assert forall|j: int| 0 <= j < devices.len() implies !listed_mk2_identity(
                    #[trigger] devices[j].vendor_id,
                    devices[j].product_id,
                ) by {
                    if j > 0 {
                        assert(devices[j] == rest[j - 1]);
                    }
                }
            }
        } else {
            assert(devices[0].path@ == devices[0].path@);
        }
    }
}

} // verus!
