//! OpenRGB SDK protocol (versions 0–4): packet framing, controller
//! descriptions, colour payloads and the per-client request decisions.

use vstd::prelude::*;
use vstd::string::StringSliceAdditionalSpecFns;
use vstd::utf8::{encode_utf8, is_char_boundary};

use crate::bytes::{lemma_le_u32_roundtrip, dec, from_le_u16, from_le_u32, get_u16, get_u32, le_u16, le_u32, put_bytes, put_decimal, put_u16, put_u32};
use crate::convert::{append_dec_u64, dec_chars};
use crate::model::{GroupId, Rgb};
use crate::rgb::FanLedAssignment;
use vstd::string::StringExecFns;

verus! {

/// Packet magic, `ORGB`.
pub const MAGIC: [u8; 4] = [79u8, 82u8, 71u8, 66u8];

/// Highest protocol version this server speaks.
pub const SERVER_PROTOCOL_VERSION: u32 = 4;

/// Size of a packet header in bytes.
pub const HEADER_SIZE: usize = 16;

/// Largest accepted payload (16 MiB).
pub const MAX_PAYLOAD: u32 = 16777216;

/// Longest string body written before the NUL terminator.
pub const MAX_STRING_BYTES: usize = 65533;

/// Packet id: how many controllers there are.
pub const PKT_REQUEST_CONTROLLER_COUNT: u32 = 0;
/// Packet id: the description of one controller.
pub const PKT_REQUEST_CONTROLLER_DATA: u32 = 1;
/// Packet id: protocol version negotiation.
pub const PKT_REQUEST_PROTOCOL_VERSION: u32 = 40;
/// Packet id: the client announces its name.
pub const PKT_SET_CLIENT_NAME: u32 = 50;
/// Packet id: new colours for all LEDs of a controller.
pub const PKT_UPDATE_LEDS: u32 = 1050;
/// Packet id: new colours for the LEDs of one zone.
pub const PKT_UPDATE_ZONE_LEDS: u32 = 1051;
/// Packet id: switch a controller to direct (custom) mode.
pub const PKT_SET_CUSTOM_MODE: u32 = 1100;

/// Device type reported for every controller (LED strip).
pub const DEVICE_TYPE_LED_STRIP: u32 = 4;

/// One zone (one fan) of a device.
#[derive(Debug, Clone)]
pub struct ZoneInfo {
    pub name: String,
    pub led_count: u16,
}

/// Snapshot of one device's capabilities, shared with the server thread.
#[derive(Debug, Clone)]
pub struct DeviceCapabilities {
    pub device_id: String,
    pub device_name: String,
    pub group_id: GroupId,
    pub zones: Vec<ZoneInfo>,
    pub total_leds: u16,
}

/// Colour command forwarded from a client to the daemon loop.
#[derive(Debug, Clone, PartialEq, Eq)]
pub enum OpenRgbCommand {
    SetLeds { group_id: GroupId, colors: Vec<[u8; 3]> },
    SetZoneLeds { group_id: GroupId, zone_idx: u32, colors: Vec<[u8; 3]> },
}

/// Decoded packet header.
#[derive(Debug, Clone, Copy, PartialEq, Eq, Structural)]
pub struct PacketHeader {
    pub device_id: u32,
    pub packet_id: u32,
    pub size: u32,
}

/// Why a header was refused.
#[derive(Debug, Clone, Copy, PartialEq, Eq, Structural)]
pub enum HeaderError {
    /// The first four bytes are not `ORGB`.
    BadMagic,
    /// The announced payload exceeds [`MAX_PAYLOAD`].
    PayloadTooLarge(u32),
}

// ---------------------------------------------------------------------------
// Specifications
// ---------------------------------------------------------------------------

/// UTF-8 bytes of a string.
pub open spec fn utf8(s: Seq<char>) -> Seq<u8> {
    encode_utf8(s)
}

/// The string body actually written: at most 65533 bytes.
pub open spec fn orgb_trunc(b: Seq<u8>) -> Seq<u8> {
    if b.len() > 65533 {
        b.take(65533)
    } else {
        b
    }
}

/// An OpenRGB string: u16 length (counting the NUL), the bytes, a NUL.
pub open spec fn orgb_string(b: Seq<u8>) -> Seq<u8> {
    le_u16((orgb_trunc(b).len() + 1) as u16) + orgb_trunc(b) + seq![0u8]
}

/// The string can be truncated at 65533 bytes without splitting a character.
pub open spec fn orgb_ok(b: Seq<u8>) -> bool {
    b.len() <= 65533 || is_char_boundary(b, 65533)
}

/// The bytes of `Lian Li`.
pub open spec fn lit_lian_li() -> Seq<u8> {
    seq![76u8, 105u8, 97u8, 110u8, 32u8, 76u8, 105u8]
}

/// The bytes of `frgb `.
pub open spec fn lit_frgb_space() -> Seq<u8> {
    seq![102u8, 114u8, 103u8, 98u8, 32u8]
}

/// The bytes of ` controller`.
pub open spec fn lit_space_controller() -> Seq<u8> {
    seq![32u8, 99u8, 111u8, 110u8, 116u8, 114u8, 111u8, 108u8, 108u8, 101u8, 114u8]
}

/// The bytes of `frgb:`.
pub open spec fn lit_frgb_colon() -> Seq<u8> {
    seq![102u8, 114u8, 103u8, 98u8, 58u8]
}

/// The bytes of `Direct`.
pub open spec fn lit_direct() -> Seq<u8> {
    seq![68u8, 105u8, 114u8, 101u8, 99u8, 116u8]
}

/// The bytes of ` LED `.
pub open spec fn lit_space_led_space() -> Seq<u8> {
    seq![32u8, 76u8, 69u8, 68u8, 32u8]
}

/// Description string of a device: `frgb <name> controller`.
pub open spec fn description(name: Seq<u8>) -> Seq<u8> {
    lit_frgb_space() + name + lit_space_controller()
}

/// Location string of a device: `frgb:<group>`.
pub open spec fn location(group: GroupId) -> Seq<u8> {
    lit_frgb_colon() + dec(group.0 as nat)
}

/// Name of the `k`-th LED (counting from 1) of a zone: `<zone> LED <k>`.
pub open spec fn led_name(zone: Seq<u8>, k: nat) -> Seq<u8> {
    zone + lit_space_led_space() + dec(k)
}

/// The single "Direct" mode descriptor block.
pub open spec fn mode_block(proto: u32, total_leds: u16) -> Seq<u8> {
    le_u16(1) + le_u32(0) + orgb_string(lit_direct()) + le_u32(0) + le_u32(0x20) + le_u32(0) + le_u32(
        0,
    ) + (if proto >= 3 {
        le_u32(0) + le_u32(4)
    } else {
        Seq::empty()
    }) + le_u32(0) + le_u32(total_leds as u32) + le_u32(0) + (if proto >= 3 {
        le_u32(4)
    } else {
        Seq::empty()
    }) + le_u32(0) + le_u32(1) + le_u16(0)
}

/// One linear zone descriptor.
pub open spec fn zone_entry(z: ZoneInfo) -> Seq<u8> {
    orgb_string(utf8(z.name@)) + le_u32(1) + le_u32(z.led_count as u32) + le_u32(z.led_count as u32)
        + le_u32(z.led_count as u32) + le_u16(0) + le_u16(0)
}

/// Descriptors of all zones, in order.
pub open spec fn zone_table(zones: Seq<ZoneInfo>) -> Seq<u8>
    decreases zones.len(),
{
    if zones.len() == 0 {
        Seq::empty()
    } else {
        zone_table(zones.drop_last()) + zone_entry(zones.last())
    }
}

/// Number of LEDs in all zones.
pub open spec fn leds_in(zones: Seq<ZoneInfo>) -> nat
    decreases zones.len(),
{
    if zones.len() == 0 {
        0
    } else {
        leds_in(zones.drop_last()) + zones.last().led_count as nat
    }
}

/// LED descriptors of the first `count` LEDs of one zone whose first LED has index `base`.
pub open spec fn zone_leds(zone: Seq<u8>, count: nat, base: nat) -> Seq<u8>
    decreases count,
{
    if count == 0 {
        Seq::empty()
    } else {
        zone_leds(zone, (count - 1) as nat, base) + orgb_string(led_name(zone, count)) + le_u32(
            (base + count - 1) as u32,
        )
    }
}

/// LED descriptors of all zones, numbered consecutively from 0.
pub open spec fn led_table(zones: Seq<ZoneInfo>) -> Seq<u8>
    decreases zones.len(),
{
    if zones.len() == 0 {
        Seq::empty()
    } else {
        led_table(zones.drop_last()) + zone_leds(
            utf8(zones.last().name@),
            zones.last().led_count as nat,
            leds_in(zones.drop_last()),
        )
    }
}

/// `n` black RGBA colours.
pub open spec fn black_colors(n: nat) -> Seq<u8> {
    Seq::new(4 * n, |i: int| 0u8)
}

/// Everything of a controller description after its size field.
pub open spec fn controller_body(dev: DeviceCapabilities, proto: u32, version: Seq<u8>) -> Seq<u8> {
    le_u32(DEVICE_TYPE_LED_STRIP) + orgb_string(utf8(dev.device_name@)) + orgb_string(lit_lian_li())
        + orgb_string(description(utf8(dev.device_name@))) + orgb_string(version) + orgb_string(
        utf8(dev.device_id@),
    ) + orgb_string(location(dev.group_id)) + mode_block(proto, dev.total_leds) + le_u16(
        dev.zones@.len() as u16,
    ) + zone_table(dev.zones@) + le_u16(dev.total_leds) + led_table(dev.zones@) + le_u16(
        dev.total_leds,
    ) + black_colors(dev.total_leds as nat)
}

/// A controller description: size of the body (u32), then the body.
pub open spec fn controller_data(dev: DeviceCapabilities, proto: u32, version: Seq<u8>) -> Seq<u8> {
    le_u32(controller_body(dev, proto, version).len() as u32) + controller_body(dev, proto, version)
}

/// Every string that a controller description writes can be truncated safely.
pub open spec fn controller_strings_ok(dev: DeviceCapabilities, version: Seq<u8>) -> bool {
    &&& orgb_ok(utf8(dev.device_name@))
    &&& orgb_ok(description(utf8(dev.device_name@)))
    &&& orgb_ok(version)
    &&& orgb_ok(utf8(dev.device_id@))
    &&& forall|i: int|
        0 <= i < dev.zones@.len() ==> {
            &&& orgb_ok(utf8(#[trigger] dev.zones@[i].name@))
            &&& forall|k: nat|
                1 <= k <= dev.zones@[i].led_count ==> orgb_ok(
                    #[trigger] led_name(utf8(dev.zones@[i].name@), k),
                )
        }
}

/// Packet bytes: header (magic, device, packet id, payload length) and payload.
pub open spec fn packet_bytes(device_id: u32, packet_id: u32, payload: Seq<u8>) -> Seq<u8> {
    MAGIC@ + le_u32(device_id) + le_u32(packet_id) + le_u32(payload.len() as u32) + payload
}

/// Meaning of a 16-byte header.
pub open spec fn header_spec(h: Seq<u8>) -> Result<PacketHeader, HeaderError> {
    if h.subrange(0, 4) != MAGIC@ {
        Err(HeaderError::BadMagic)
    } else if from_le_u32(h[12], h[13], h[14], h[15]) > MAX_PAYLOAD {
        Err(HeaderError::PayloadTooLarge(from_le_u32(h[12], h[13], h[14], h[15])))
    } else {
        Ok(
            PacketHeader {
                device_id: from_le_u32(h[4], h[5], h[6], h[7]),
                packet_id: from_le_u32(h[8], h[9], h[10], h[11]),
                size: from_le_u32(h[12], h[13], h[14], h[15]),
            },
        )
    }
}

/// Colours of an UPDATE_LEDS-style payload whose colour count sits at `at`:
/// as many RGBA entries as announced and present, alpha dropped.
pub open spec fn colors_at(p: Seq<u8>, at: int) -> Seq<Seq<u8>> {
    if p.len() < at + 2 {
        Seq::empty()
    } else {
        let announced = from_le_u16(p[at], p[at + 1]) as int;
        let present = (p.len() - (at + 2)) / 4;
        let n = if announced < present {
            announced
        } else {
            present
        };
        Seq::new(
            n as nat,
            |k: int| seq![p[at + 2 + 4 * k], p[at + 3 + 4 * k], p[at + 4 + 4 * k]],
        )
    }
}

/// Colours as plain byte triples.
pub open spec fn colors_view(c: Seq<[u8; 3]>) -> Seq<Seq<u8>> {
    c.map_values(|x: [u8; 3]| x@)
}

// ---------------------------------------------------------------------------
// Strings
// ---------------------------------------------------------------------------

fn put_prefix(buf: &mut Vec<u8>, bytes: &[u8], n: usize)
    requires
        n <= bytes@.len(),
    ensures
        final(buf)@ == old(buf)@ + bytes@.take(n as int),
{
    let ghost start = buf@;
    let mut i: usize = 0;
    while i < n
        invariant
            i <= n,
            n <= bytes@.len(),
            buf@ == start + bytes@.take(i as int),
        decreases n - i,
    {
        buf.push(bytes[i]);
        assert(bytes@.take(i + 1) =~= bytes@.take(i as int).push(bytes@[i as int]));
        i = i + 1;
    }
}

/// Writes an OpenRGB string from raw bytes (truncated to 65533 bytes).
pub fn write_orgb_bytes(buf: &mut Vec<u8>, bytes: &[u8])
    ensures
        final(buf)@ == old(buf)@ + orgb_string(bytes@),
{
    let n: usize = if bytes.len() > MAX_STRING_BYTES {
        MAX_STRING_BYTES
    } else {
        bytes.len()
    };
    assert(orgb_trunc(bytes@) =~= bytes@.take(n as int));
    put_u16(buf, (n + 1) as u16);
    put_prefix(buf, bytes, n);
    buf.push(0u8);
    assert(buf@ =~= old(buf)@ + orgb_string(bytes@));
}

/// Write an OpenRGB-style length-prefixed string (u16 length including NUL).
/// Strings longer than 65533 bytes are truncated to keep the length in a u16.
pub fn write_orgb_string(buf: &mut Vec<u8>, s: &str)
    requires
        orgb_ok(s.spec_bytes()),
    ensures
        final(buf)@ == old(buf)@ + orgb_string(s.spec_bytes()),
{
    write_orgb_bytes(buf, s.as_bytes());
}

fn string_bytes(s: &String) -> (b: &[u8])
    ensures
        b@ == utf8(s@),
{
    s.as_str().as_bytes()
}

fn push_literal(buf: &mut Vec<u8>, lit: &[u8])
    ensures
        final(buf)@ == old(buf)@ + lit@,
{
    put_bytes(buf, lit);
}

// ---------------------------------------------------------------------------
// Controller description
// ---------------------------------------------------------------------------

proof fn lemma_leds_in_prefix(zones: Seq<ZoneInfo>, i: int)
    requires
        0 <= i <= zones.len(),
    ensures
        leds_in(zones.subrange(0, i)) <= leds_in(zones),
    decreases zones.len() - i,
{
    if i < zones.len() {
        lemma_leds_in_prefix(zones, i + 1);
        assert(zones.subrange(0, i + 1).drop_last() =~= zones.subrange(0, i));
    } else {
        assert(zones.subrange(0, i) =~= zones);
    }
}

fn write_mode_block(buf: &mut Vec<u8>, proto: u32, total_leds: u16)
    ensures
        final(buf)@ == old(buf)@ + mode_block(proto, total_leds),
{
    put_u16(buf, 1);
    put_u32(buf, 0);
    let mut name: Vec<u8> = Vec::new();
    push_literal(&mut name, &[68u8, 105u8, 114u8, 101u8, 99u8, 116u8]);
    assert(name@ =~= lit_direct());
    write_orgb_bytes(buf, name.as_slice());
    put_u32(buf, 0);
    put_u32(buf, 0x20);
    put_u32(buf, 0);
    put_u32(buf, 0);
    let ghost mid1 = buf@;
    if proto >= 3 {
        put_u32(buf, 0);
        put_u32(buf, 4);
    }
    let ghost mid2 = buf@;
    put_u32(buf, 0);
    put_u32(buf, total_leds as u32);
    put_u32(buf, 0);
    let ghost mid3 = buf@;
    if proto >= 3 {
        put_u32(buf, 4);
    }
    let ghost mid4 = buf@;
    put_u32(buf, 0);
    put_u32(buf, 1);
    put_u16(buf, 0);
    assert(buf@ =~= old(buf)@ + mode_block(proto, total_leds));
}

fn write_zone_table(buf: &mut Vec<u8>, zones: &Vec<ZoneInfo>)
    ensures
        final(buf)@ == old(buf)@ + zone_table(zones@),
{
    let ghost start = buf@;
    let mut i: usize = 0;
    assert(zone_table(zones@.subrange(0, 0)) =~= Seq::empty());
    while i < zones.len()
        invariant
            i <= zones@.len(),
            buf@ == start + zone_table(zones@.subrange(0, i as int)),
        decreases zones@.len() - i,
    {
        let z = &zones[i];
        write_orgb_bytes(buf, string_bytes(&z.name));
        put_u32(buf, 1);
        put_u32(buf, z.led_count as u32);
        put_u32(buf, z.led_count as u32);
        put_u32(buf, z.led_count as u32);
        put_u16(buf, 0);
        put_u16(buf, 0);
        assert(zones@.subrange(0, i + 1).drop_last() =~= zones@.subrange(0, i as int));
        assert(zones@.subrange(0, i + 1).last() == zones@[i as int]);
        assert(buf@ =~= start + zone_table(zones@.subrange(0, i + 1)));
        i = i + 1;
    }
    assert(zones@.subrange(0, i as int) =~= zones@);
}

fn write_zone_leds(buf: &mut Vec<u8>, name: &[u8], count: u16, base: u32)
    requires
        base + count <= u32::MAX,
    ensures
        final(buf)@ == old(buf)@ + zone_leds(name@, count as nat, base as nat),
{
    let ghost start = buf@;
    let mut j: u16 = 0;
    while j < count
        invariant
            j <= count,
            base + count <= u32::MAX,
            buf@ == start + zone_leds(name@, j as nat, base as nat),
        decreases count - j,
    {
        let mut label: Vec<u8> = Vec::new();
        put_bytes(&mut label, name);
        push_literal(&mut label, &[32u8, 76u8, 69u8, 68u8, 32u8]);
        put_decimal(&mut label, (j + 1) as u32);
        assert(label@ =~= led_name(name@, (j + 1) as nat));
        write_orgb_bytes(buf, label.as_slice());
        put_u32(buf, base + j as u32);
        assert(buf@ =~= start + zone_leds(name@, (j + 1) as nat, base as nat));
        j = j + 1;
    }
}

fn write_led_table(buf: &mut Vec<u8>, zones: &Vec<ZoneInfo>)
    requires
        leds_in(zones@) <= u32::MAX,
    ensures
        final(buf)@ == old(buf)@ + led_table(zones@),
{
    let ghost start = buf@;
    let mut i: usize = 0;
    let mut base: u32 = 0;
    assert(led_table(zones@.subrange(0, 0)) =~= Seq::empty());
    assert(leds_in(zones@.subrange(0, 0)) == 0);
    while i < zones.len()
        invariant
            i <= zones@.len(),
            leds_in(zones@) <= u32::MAX,
            base == leds_in(zones@.subrange(0, i as int)),
            buf@ == start + led_table(zones@.subrange(0, i as int)),
        decreases zones@.len() - i,
    {
        let z = &zones[i];
        assert(zones@.subrange(0, i + 1).drop_last() =~= zones@.subrange(0, i as int));
        assert(zones@.subrange(0, i + 1).last() == zones@[i as int]);
        proof {
            lemma_leds_in_prefix(zones@, i + 1);
        }
        write_zone_leds(buf, string_bytes(&z.name), z.led_count, base);
        base = base + z.led_count as u32;
        i = i + 1;
    }
    assert(zones@.subrange(0, i as int) =~= zones@);
}

fn write_black_colors(buf: &mut Vec<u8>, n: u16)
    ensures
        final(buf)@ == old(buf)@ + black_colors(n as nat),
{
    let ghost start = buf@;
    let mut k: u16 = 0;
    while k < n
        invariant
            k <= n,
            buf@ == start + black_colors(k as nat),
        decreases n - k,
    {
        buf.push(0u8);
        buf.push(0u8);
        buf.push(0u8);
        buf.push(0u8);
        assert(buf@ =~= start + black_colors((k + 1) as nat));
        k = k + 1;
    }
}

/// Serialises one device in the OpenRGB binary controller format.
/// `version` is the version string reported to clients.
pub fn build_controller_data(dev: &DeviceCapabilities, protocol_version: u32, version: &str) -> (data:
    Vec<u8>)
    requires
        controller_strings_ok(*dev, version.spec_bytes()),
        leds_in(dev.zones@) <= u32::MAX,
    ensures
        data@ == controller_data(*dev, protocol_version, version.spec_bytes()),
{
    let mut body: Vec<u8> = Vec::new();
    put_u32(&mut body, DEVICE_TYPE_LED_STRIP);
    let name = string_bytes(&dev.device_name);
    write_orgb_bytes(&mut body, name);
    let mut vendor: Vec<u8> = Vec::new();
    push_literal(&mut vendor, &[76u8, 105u8, 97u8, 110u8, 32u8, 76u8, 105u8]);
    assert(vendor@ =~= lit_lian_li());
    write_orgb_bytes(&mut body, vendor.as_slice());
    let mut desc: Vec<u8> = Vec::new();
    push_literal(&mut desc, &[102u8, 114u8, 103u8, 98u8, 32u8]);
    put_bytes(&mut desc, name);
    push_literal(
        &mut desc,
        &[32u8, 99u8, 111u8, 110u8, 116u8, 114u8, 111u8, 108u8, 108u8, 101u8, 114u8],
    );
    assert(desc@ =~= description(utf8(dev.device_name@)));
    write_orgb_bytes(&mut body, desc.as_slice());
    write_orgb_bytes(&mut body, version.as_bytes());
    write_orgb_bytes(&mut body, string_bytes(&dev.device_id));
    let mut loc: Vec<u8> = Vec::new();
    push_literal(&mut loc, &[102u8, 114u8, 103u8, 98u8, 58u8]);
    put_decimal(&mut loc, dev.group_id.0 as u32);
    assert(loc@ =~= location(dev.group_id));
    write_orgb_bytes(&mut body, loc.as_slice());
    write_mode_block(&mut body, protocol_version, dev.total_leds);
    #[verifier::truncate]
    let num_zones = dev.zones.len() as u16;
    put_u16(&mut body, num_zones);
    write_zone_table(&mut body, &dev.zones);
    put_u16(&mut body, dev.total_leds);
    write_led_table(&mut body, &dev.zones);
    put_u16(&mut body, dev.total_leds);
    write_black_colors(&mut body, dev.total_leds);
    assert(body@ =~= controller_body(*dev, protocol_version, version.spec_bytes()));
    let mut data: Vec<u8> = Vec::new();
    #[verifier::truncate]
    let size = body.len() as u32;
    put_u32(&mut data, size);
    put_bytes(&mut data, body.as_slice());
    data
}

// ---------------------------------------------------------------------------
// Packets
// ---------------------------------------------------------------------------

/// Encodes a packet: header followed by the payload.
pub fn encode_packet(device_id: u32, packet_id: u32, payload: &[u8]) -> (out: Vec<u8>)
    ensures
        out@ == packet_bytes(device_id, packet_id, payload@),
{
    let mut out: Vec<u8> = Vec::new();
    push_literal(&mut out, &[79u8, 82u8, 71u8, 66u8]);
    put_u32(&mut out, device_id);
    put_u32(&mut out, packet_id);
    #[verifier::truncate]
    let len = payload.len() as u32;
    put_u32(&mut out, len);
    put_bytes(&mut out, payload);
    assert(MAGIC@ =~= seq![79u8, 82u8, 71u8, 66u8]);
    out
}

/// Decodes a 16-byte packet header, refusing a bad magic or a payload over 16 MiB.
pub fn parse_header(header: &[u8]) -> (r: Result<PacketHeader, HeaderError>)
    requires
        header@.len() == HEADER_SIZE,
    ensures
        r == header_spec(header@),
{
    assert(MAGIC@ =~= seq![79u8, 82u8, 71u8, 66u8]);
    if header[0] != 79u8 || header[1] != 82u8 || header[2] != 71u8 || header[3] != 66u8 {
        assert(header@.subrange(0, 4) != MAGIC@) by {
            if header@.subrange(0, 4) == MAGIC@ {
                assert(header@.subrange(0, 4)[0] == header@[0]);
                assert(header@.subrange(0, 4)[1] == header@[1]);
                assert(header@.subrange(0, 4)[2] == header@[2]);
                assert(header@.subrange(0, 4)[3] == header@[3]);
            }
        }
        return Err(HeaderError::BadMagic);
    }
    assert(header@.subrange(0, 4) =~= MAGIC@);
    let device_id = get_u32(header, 4);
    let packet_id = get_u32(header, 8);
    let size = get_u32(header, 12);
    if size > MAX_PAYLOAD {
        return Err(HeaderError::PayloadTooLarge(size));
    }
    Ok(PacketHeader { device_id, packet_id, size })
}

// ---------------------------------------------------------------------------
// Colour payloads
// ---------------------------------------------------------------------------

fn colors_from(payload: &[u8], at: usize) -> (colors: Vec<[u8; 3]>)
    requires
        at == 4 || at == 8,
    ensures
        colors_view(colors@) == colors_at(payload@, at as int),
{
    let mut colors: Vec<[u8; 3]> = Vec::new();
    if payload.len() < at + 2 {
        assert(colors_view(colors@) =~= colors_at(payload@, at as int));
        return colors;
    }
    let num = get_u16(payload, at);
    let ghost present = (payload@.len() - (at + 2)) / 4;
    let ghost n: int = if (num as int) < present {
        num as int
    } else {
        present
    };
    let mut offset: usize = at + 2;
    let mut k: u16 = 0;
    while k < num
        invariant
            at == 4 || at == 8,
            at + 2 <= payload@.len(),
            num == from_le_u16(payload@[at as int], payload@[at + 1]),
            present == (payload@.len() - (at + 2)) / 4,
            n == (if (num as int) < present {
                num as int
            } else {
                present
            }),
            k <= num,
            k <= n,
            offset == at + 2 + 4 * k,
            colors@.len() == k,
            forall|q: int|
                0 <= q < k ==> (#[trigger] colors@[q])@ == seq![
                    payload@[at + 2 + 4 * q],
                    payload@[at + 3 + 4 * q],
                    payload@[at + 4 + 4 * q],
                ],
        ensures
            colors@.len() == n,
            forall|q: int|
                0 <= q < n ==> (#[trigger] colors@[q])@ == seq![
                    payload@[at + 2 + 4 * q],
                    payload@[at + 3 + 4 * q],
                    payload@[at + 4 + 4 * q],
                ],
        decreases num - k,
    {
        if offset + 4 > payload.len() {
            assert(k == n);
            break;
        }
        let c: [u8; 3] = [payload[offset], payload[offset + 1], payload[offset + 2]];
        assert(c@ =~= seq![payload@[offset as int], payload@[offset + 1], payload@[offset + 2]]);
        colors.push(c);
        offset = offset + 4;
        k = k + 1;
    }
    assert(colors_view(colors@) =~= colors_at(payload@, at as int));
    colors
}

/// Parse UPDATE_LEDS payload: data_size[4] + num_colors[2] + colors[].
pub fn parse_colors(payload: &[u8]) -> (colors: Vec<[u8; 3]>)
    ensures
        colors_view(colors@) == colors_at(payload@, 4),
{
    colors_from(payload, 4)
}

/// Parse UPDATE_ZONE_LEDS payload: data_size[4] + zone_idx[4] + num_colors[2] + colors[].
pub fn parse_zone_colors(payload: &[u8]) -> (colors: Vec<[u8; 3]>)
    ensures
        colors_view(colors@) == colors_at(payload@, 8),
{
    colors_from(payload, 8)
}

// ---------------------------------------------------------------------------
// Per-client request handling
// ---------------------------------------------------------------------------

/// Protocol state of one connected client.
#[derive(Debug, Clone, Copy, PartialEq, Eq, Structural)]
pub struct ClientSession {
    /// Protocol version negotiated with the client.
    pub protocol_version: u32,
}

impl ClientSession {
    /// A fresh session speaks the server's own version until the client asks.
    pub fn new() -> (s: ClientSession)
        ensures
            s.protocol_version == SERVER_PROTOCOL_VERSION,
    {
        ClientSession { protocol_version: SERVER_PROTOCOL_VERSION }
    }
}

/// What the server does in answer to one packet.
#[derive(Debug, Clone, PartialEq, Eq)]
pub enum ClientAction {
    /// Send these bytes (one encoded packet) back to the client.
    Reply(Vec<u8>),
    /// Forward a colour command to the daemon loop.
    Command(OpenRgbCommand),
    /// The client announced its name (raw payload bytes).
    ClientName(Vec<u8>),
    /// Nothing to do (custom-mode request, or a device index out of range).
    Nothing,
    /// A packet id this server does not know.
    Unknown(u32),
}

/// The version a client asks for: the first four payload bytes, or 0.
pub open spec fn requested_version(payload: Seq<u8>) -> u32 {
    if payload.len() >= 4 {
        from_le_u32(payload[0], payload[1], payload[2], payload[3])
    } else {
        0
    }
}

/// The version agreed on: the lower of the server's and the client's.
pub open spec fn negotiated_version(payload: Seq<u8>) -> u32 {
    if requested_version(payload) < SERVER_PROTOCOL_VERSION {
        requested_version(payload)
    } else {
        SERVER_PROTOCOL_VERSION
    }
}

/// Every device description can be written without splitting a character.
pub open spec fn caps_ok(caps: Seq<DeviceCapabilities>, version: Seq<u8>) -> bool {
    forall|i: int|
        0 <= i < caps.len() ==> controller_strings_ok(#[trigger] caps[i], version) && leds_in(
            caps[i].zones@,
        ) <= u32::MAX
}

/// The protocol version after handling a packet.
pub open spec fn next_version(proto: u32, h: PacketHeader, payload: Seq<u8>) -> u32 {
    if h.packet_id == PKT_REQUEST_PROTOCOL_VERSION {
        negotiated_version(payload)
    } else {
        proto
    }
}

/// The answer to one packet, given the devices and the negotiated version.
pub open spec fn packet_action(
    caps: Seq<DeviceCapabilities>,
    proto: u32,
    h: PacketHeader,
    payload: Seq<u8>,
    version: Seq<u8>,
    act: ClientAction,
) -> bool {
    if h.packet_id == PKT_REQUEST_PROTOCOL_VERSION {
        act matches ClientAction::Reply(b) && b@ == packet_bytes(
            0,
            PKT_REQUEST_PROTOCOL_VERSION,
            le_u32(negotiated_version(payload)),
        )
    } else if h.packet_id == PKT_SET_CLIENT_NAME {
        act matches ClientAction::ClientName(b) && b@ == payload
    } else if h.packet_id == PKT_REQUEST_CONTROLLER_COUNT {
        act matches ClientAction::Reply(b) && b@ == packet_bytes(
            0,
            PKT_REQUEST_CONTROLLER_COUNT,
            le_u32(caps.len() as u32),
        )
    } else if h.packet_id == PKT_REQUEST_CONTROLLER_DATA {
        act matches ClientAction::Reply(b) && b@ == packet_bytes(
            h.device_id,
            PKT_REQUEST_CONTROLLER_DATA,
            if h.device_id < caps.len() {
                controller_data(caps[h.device_id as int], proto, version)
            } else {
                Seq::empty()
            },
        )
    } else if h.packet_id == PKT_UPDATE_LEDS {
        if h.device_id < caps.len() {
            act matches ClientAction::Command(OpenRgbCommand::SetLeds { group_id, colors }) && group_id
                == caps[h.device_id as int].group_id && colors_view(colors@) == colors_at(payload, 4)
        } else {
            act == ClientAction::Nothing
        }
    } else if h.packet_id == PKT_UPDATE_ZONE_LEDS {
        if h.device_id < caps.len() && payload.len() >= 10 {
            act matches ClientAction::Command(
                OpenRgbCommand::SetZoneLeds { group_id, zone_idx, colors },
            ) && group_id == caps[h.device_id as int].group_id && zone_idx == from_le_u32(
                payload[4],
                payload[5],
                payload[6],
                payload[7],
            ) && colors_view(colors@) == colors_at(payload, 8)
        } else {
            act == ClientAction::Nothing
        }
    } else if h.packet_id == PKT_SET_CUSTOM_MODE {
        act == ClientAction::Nothing
    } else {
        act == ClientAction::Unknown(h.packet_id)
    }
}

fn le_u32_vec(v: u32) -> (out: Vec<u8>)
    ensures
        out@ == le_u32(v),
{
    let mut out: Vec<u8> = Vec::new();
    put_u32(&mut out, v);
    out
}

fn copy_bytes(bytes: &[u8]) -> (out: Vec<u8>)
    ensures
        out@ == bytes@,
{
    let mut out: Vec<u8> = Vec::new();
    put_bytes(&mut out, bytes);
    assert(out@ =~= bytes@);
    out
}

/// Handles one packet of a client: updates the negotiated protocol version
/// and says what to send back or forward.
pub fn handle_packet(
    caps: &Vec<DeviceCapabilities>,
    session: &mut ClientSession,
    header: PacketHeader,
    payload: &[u8],
    version: &str,
) -> (act: ClientAction)
    requires
        caps_ok(caps@, version.spec_bytes()),
    ensures
        final(session).protocol_version == next_version(
            old(session).protocol_version,
            header,
            payload@,
        ),
        packet_action(
            caps@,
            old(session).protocol_version,
            header,
            payload@,
            version.spec_bytes(),
            act,
        ),
{
    let id = header.packet_id;
    if id == PKT_REQUEST_PROTOCOL_VERSION {
        let client_ver: u32 = if payload.len() >= 4 {
            get_u32(payload, 0)
        } else {
            0
        };
        let negotiated = if client_ver < SERVER_PROTOCOL_VERSION {
            client_ver
        } else {
            SERVER_PROTOCOL_VERSION
        };
        session.protocol_version = negotiated;
        let body = le_u32_vec(negotiated);
        ClientAction::Reply(encode_packet(0, PKT_REQUEST_PROTOCOL_VERSION, body.as_slice()))
    } else if id == PKT_SET_CLIENT_NAME {
        ClientAction::ClientName(copy_bytes(payload))
    } else if id == PKT_REQUEST_CONTROLLER_COUNT {
        #[verifier::truncate]
        let count = caps.len() as u32;
        let body = le_u32_vec(count);
        ClientAction::Reply(encode_packet(0, PKT_REQUEST_CONTROLLER_COUNT, body.as_slice()))
    } else if id == PKT_REQUEST_CONTROLLER_DATA {
        let idx = header.device_id as usize;
        if idx < caps.len() {
            proof {
                assert(controller_strings_ok(caps@[idx as int], version.spec_bytes()));
            }
            let data = build_controller_data(&caps[idx], session.protocol_version, version);
            ClientAction::Reply(
                encode_packet(header.device_id, PKT_REQUEST_CONTROLLER_DATA, data.as_slice()),
            )
        } else {
            let empty: Vec<u8> = Vec::new();
            assert(empty@ =~= Seq::<u8>::empty());
            ClientAction::Reply(
                encode_packet(header.device_id, PKT_REQUEST_CONTROLLER_DATA, empty.as_slice()),
            )
        }
    } else if id == PKT_UPDATE_LEDS {
        let idx = header.device_id as usize;
        if idx < caps.len() {
            let group_id = caps[idx].group_id;
            let colors = parse_colors(payload);
            ClientAction::Command(OpenRgbCommand::SetLeds { group_id, colors })
        } else {
            ClientAction::Nothing
        }
    } else if id == PKT_UPDATE_ZONE_LEDS {
        let idx = header.device_id as usize;
        if idx < caps.len() && payload.len() >= 10 {
            let group_id = caps[idx].group_id;
            let zone_idx = get_u32(payload, 4);
            let colors = parse_zone_colors(payload);
            ClientAction::Command(OpenRgbCommand::SetZoneLeds { group_id, zone_idx, colors })
        } else {
            ClientAction::Nothing
        }
    } else if id == PKT_SET_CUSTOM_MODE {
        ClientAction::Nothing
    } else {
        ClientAction::Unknown(id)
    }
}

// ---------------------------------------------------------------------------
// Laws
// ---------------------------------------------------------------------------

/// A packet's header decodes to the device id, packet id and payload length
/// it was encoded with, for every payload within the 16 MiB limit.
pub proof fn law_packet_header_roundtrip(device_id: u32, packet_id: u32, payload: Seq<u8>)
    requires
        payload.len() <= MAX_PAYLOAD,
    ensures
        packet_bytes(device_id, packet_id, payload).len() == HEADER_SIZE + payload.len(),
        header_spec(packet_bytes(device_id, packet_id, payload).take(16)) == Ok::<
            PacketHeader,
            HeaderError,
        >(PacketHeader { device_id, packet_id, size: payload.len() as u32 }),
{
    let b = packet_bytes(device_id, packet_id, payload);
    let h = b.take(16);
    lemma_le_u32_roundtrip(device_id);
    lemma_le_u32_roundtrip(packet_id);
    lemma_le_u32_roundtrip(payload.len() as u32);
    assert(MAGIC@ =~= seq![79u8, 82u8, 71u8, 66u8]);
    assert(h.subrange(0, 4) =~= MAGIC@);
    assert(h[4] == le_u32(device_id)[0] && h[5] == le_u32(device_id)[1] && h[6] == le_u32(device_id)[2]
        && h[7] == le_u32(device_id)[3]);
    assert(h[8] == le_u32(packet_id)[0] && h[9] == le_u32(packet_id)[1] && h[10] == le_u32(packet_id)[2]
        && h[11] == le_u32(packet_id)[3]);
    let l = payload.len() as u32;
    assert(h[12] == le_u32(l)[0] && h[13] == le_u32(l)[1] && h[14] == le_u32(l)[2] && h[15] == le_u32(
        l,
    )[3]);
}

/// The size field of a controller description counts exactly the bytes that follow it.
pub proof fn law_controller_data_size(dev: DeviceCapabilities, proto: u32, version: Seq<u8>)
    requires
        controller_body(dev, proto, version).len() <= u32::MAX,
    ensures
        ({
            let d = controller_data(dev, proto, version);
            from_le_u32(d[0], d[1], d[2], d[3]) == d.len() - 4
        }),
{
    lemma_le_u32_roundtrip(controller_body(dev, proto, version).len() as u32);
}

/// The negotiated protocol version never exceeds the server's nor the client's.
pub proof fn law_negotiated_version_bounded(payload: Seq<u8>)
    ensures
        negotiated_version(payload) <= SERVER_PROTOCOL_VERSION,
        negotiated_version(payload) <= requested_version(payload),
        requested_version(payload) <= SERVER_PROTOCOL_VERSION ==> negotiated_version(payload)
            == requested_version(payload),
{
}

/// Parsed colours never outnumber the announced count nor the bytes present,
/// and each is the RGB part of its RGBA slot.
pub proof fn law_colors_bounded(p: Seq<u8>, at: int)
    requires
        at == 4 || at == 8,
    ensures
        p.len() >= at + 2 ==> colors_at(p, at).len() <= from_le_u16(p[at], p[at + 1]),
        colors_at(p, at).len() * 4 + at + 2 <= p.len() || colors_at(p, at).len() == 0,
{
}

// ---------------------------------------------------------------------------
// Applying client colours
// ---------------------------------------------------------------------------

/// Colours of fan `f`: its run of `per_fan` colours, cut short at the end
/// of the list, empty when the list ends before it.
pub open spec fn fan_colors(colors: Seq<Rgb>, f: int, per_fan: int) -> Seq<Rgb> {
    let start = f * per_fan;
    let end = if start + per_fan < colors.len() {
        start + per_fan
    } else {
        colors.len() as int
    };
    if start < colors.len() {
        colors.subrange(start, end)
    } else {
        Seq::empty()
    }
}

/// The inner ring takes the first `inner_n` colours of the fan (all of them
/// when there are fewer).
pub open spec fn inner_colors(fan: Seq<Rgb>, inner_n: int) -> Seq<Rgb> {
    if inner_n <= fan.len() {
        fan.subrange(0, inner_n)
    } else {
        fan
    }
}

/// The outer ring takes the next `outer_n` colours, or none when the fan's
/// colours do not reach that far.
pub open spec fn outer_colors(fan: Seq<Rgb>, inner_n: int, outer_n: int) -> Seq<Rgb> {
    if inner_n + outer_n <= fan.len() {
        fan.subrange(inner_n, inner_n + outer_n)
    } else {
        Seq::empty()
    }
}

/// Colour of an RGB byte triple.
pub open spec fn rgb_of(c: [u8; 3]) -> Rgb {
    Rgb { r: c@[0], g: c@[1], b: c@[2] }
}

fn copy_range(v: &Vec<Rgb>, from: usize, to: usize) -> (r: Vec<Rgb>)
    requires
        from <= to <= v@.len(),
    ensures
        r@ == v@.subrange(from as int, to as int),
{
    let mut r: Vec<Rgb> = Vec::new();
    let mut i = from;
    while i < to
        invariant
            from <= i <= to <= v@.len(),
            r@ == v@.subrange(from as int, i as int),
        decreases to - i,
    {
        r.push(v[i]);
        assert(v@.subrange(from as int, i + 1) =~= v@.subrange(from as int, i as int).push(v@[i as int]));
        i = i + 1;
    }
    r
}

/// Split a device's colour list over its fans: `per_fan` colours each, the
/// first `inner_n` of a fan to its inner ring and the next `outer_n` to its
/// outer ring.
pub fn per_led_assignments(
    colors: &[[u8; 3]],
    fan_count: usize,
    per_fan: usize,
    inner_n: usize,
    outer_n: usize,
) -> (r: Vec<FanLedAssignment>)
    requires
        fan_count * per_fan + per_fan <= usize::MAX,
        inner_n + outer_n <= usize::MAX,
    ensures
        r@.len() == fan_count,
        forall|f: int|
            0 <= f < fan_count ==> {
                let fan = fan_colors(colors@.map_values(|c: [u8; 3]| rgb_of(c)), f, per_fan as int);
                &&& (#[trigger] r@[f]).inner@ == inner_colors(fan, inner_n as int)
                &&& r@[f].outer@ == outer_colors(fan, inner_n as int, outer_n as int)
            },
{
    let ghost all = colors@.map_values(|c: [u8; 3]| rgb_of(c));
    let mut rgb: Vec<Rgb> = Vec::new();
    let mut k: usize = 0;
    while k < colors.len()
        invariant
            k <= colors@.len(),
            all == colors@.map_values(|c: [u8; 3]| rgb_of(c)),
            rgb@ == all.subrange(0, k as int),
        decreases colors@.len() - k,
    {
        let c = colors[k];
        rgb.push(Rgb { r: c[0], g: c[1], b: c[2] });
        assert(all.subrange(0, k + 1) =~= all.subrange(0, k as int).push(all[k as int]));
        k = k + 1;
    }
    assert(all.subrange(0, k as int) =~= all);
    let n = rgb.len();
    let mut out: Vec<FanLedAssignment> = Vec::new();
    let mut f: usize = 0;
    while f < fan_count
        invariant
            f <= fan_count,
            fan_count * per_fan + per_fan <= usize::MAX,
            inner_n + outer_n <= usize::MAX,
            rgb@ == all,
            n == all.len(),
            all == colors@.map_values(|c: [u8; 3]| rgb_of(c)),
            out@.len() == f,
            forall|g: int|
                0 <= g < f ==> {
                    let fan = fan_colors(all, g, per_fan as int);
                    &&& (#[trigger] out@[g]).inner@ == inner_colors(fan, inner_n as int)
                    &&& out@[g].outer@ == outer_colors(fan, inner_n as int, outer_n as int)
                },
        decreases fan_count - f,
    {
        assert(f * per_fan + per_fan <= fan_count * per_fan + per_fan) by (nonlinear_arith)
            requires
                f <= fan_count,
        ;
        let start = f * per_fan;
        let end = if start + per_fan < n {
            start + per_fan
        } else {
            n
        };
        let fan = if start < n {
            copy_range(&rgb, start, end)
        } else {
            Vec::new()
        };
        let ghost fs = fan_colors(all, f as int, per_fan as int);
        assert(fan@ =~= fs);
        let inner = if inner_n <= fan.len() {
            copy_range(&fan, 0, inner_n)
        } else {
            copy_range(&fan, 0, fan.len())
        };
        let outer = if inner_n + outer_n <= fan.len() {
            copy_range(&fan, inner_n, inner_n + outer_n)
        } else {
            Vec::new()
        };
        proof {
            if !(inner_n <= fan@.len()) {
                assert(fan@.subrange(0, fan@.len() as int) =~= fan@);
            }
            assert(inner@ =~= inner_colors(fs, inner_n as int));
            assert(outer@ =~= outer_colors(fs, inner_n as int, outer_n as int));
        }
        out.push(FanLedAssignment { inner, outer });
        f = f + 1;
    }
    out
}

/// Zone name of fan `i` (counted from 0): "Fan " and its number from 1.
pub open spec fn fan_zone_name(i: int) -> Seq<char> {
    "Fan "@ + dec_chars((i + 1) as nat)
}

/// One zone per fan, named "Fan 1", "Fan 2", ..., each with `per_fan` LEDs.
pub fn fan_zones(fan_count: u8, per_fan: u16) -> (z: Vec<ZoneInfo>)
    ensures
        z@.len() == fan_count,
        forall|i: int|
            0 <= i < fan_count ==> (#[trigger] z@[i]).name@ == fan_zone_name(i) && z@[i].led_count
                == per_fan,
{
    let mut z: Vec<ZoneInfo> = Vec::new();
    let mut i: u8 = 0;
    while i < fan_count
        invariant
            i <= fan_count,
            z@.len() == i,
            forall|j: int|
                0 <= j < i ==> (#[trigger] z@[j]).name@ == fan_zone_name(j) && z@[j].led_count
                    == per_fan,
        decreases fan_count - i,
    {
        let mut name = "Fan ".to_owned();
        append_dec_u64(&mut name, i as u64 + 1);
        z.push(ZoneInfo { name, led_count: per_fan });
        i = i + 1;
    }
    z
}

proof fn lemma_mode_block_len(proto: u32, total_leds: u16)
    ensures
        mode_block(proto, total_leds).len() == mode_block(2, total_leds).len() + if proto >= 3 {
            12int
        } else {
            0int
        },
{
}

/// The head of a controller body, before its mode block.
#[verifier::opaque]
spec fn body_head(dev: DeviceCapabilities, version: Seq<u8>) -> Seq<u8> {
    le_u32(DEVICE_TYPE_LED_STRIP) + orgb_string(utf8(dev.device_name@)) + orgb_string(lit_lian_li())
        + orgb_string(description(utf8(dev.device_name@))) + orgb_string(version) + orgb_string(
        utf8(dev.device_id@),
    ) + orgb_string(location(dev.group_id))
}

/// The tail of a controller body, after its mode block.
#[verifier::opaque]
spec fn body_tail(dev: DeviceCapabilities) -> Seq<u8> {
    le_u16(dev.zones@.len() as u16) + zone_table(dev.zones@) + le_u16(dev.total_leds) + led_table(
        dev.zones@,
    ) + le_u16(dev.total_leds) + black_colors(dev.total_leds as nat)
}

#[verifier::rlimit(50)]
proof fn lemma_body_parts(dev: DeviceCapabilities, proto: u32, version: Seq<u8>)
    ensures
        controller_body(dev, proto, version) == body_head(dev, version) + mode_block(proto, dev.total_leds)
            + body_tail(dev),
        body_head(dev, version).subrange(0, 4) == le_u32(DEVICE_TYPE_LED_STRIP),
        body_head(dev, version).len() >= 4,
{
    reveal(body_head);
    reveal(body_tail);
    assert(controller_body(dev, proto, version) =~= body_head(dev, version) + mode_block(
        proto,
        dev.total_leds,
    ) + body_tail(dev));
    lemma_le_u32_roundtrip(DEVICE_TYPE_LED_STRIP);
    let h = body_head(dev, version);
    assert(h.subrange(0, 4) =~= le_u32(DEVICE_TYPE_LED_STRIP));
}

proof fn lemma_sized_parts(h: Seq<u8>, m: Seq<u8>, t: Seq<u8>)
    requires
        h.len() >= 4,
    ensures
        (le_u32((h + m + t).len() as u32) + (h + m + t)).subrange(4, 8) == h.subrange(0, 4),
{
    let b = h + m + t;
    assert((le_u32(b.len() as u32) + b).subrange(4, 8) =~= h.subrange(0, 4));
}

/// A controller description starts, after its size, with the LED-strip
/// device type; from protocol 3 on it is 12 bytes longer than before
/// (the mode's colour and brightness fields).
#[verifier::rlimit(100)]
pub proof fn law_controller_data_layout(dev: DeviceCapabilities, proto: u32, version: Seq<u8>)
    ensures
        controller_data(dev, proto, version).subrange(4, 8) == le_u32(DEVICE_TYPE_LED_STRIP),
        proto >= 3 ==> controller_body(dev, proto, version).len() == controller_body(dev, 2, version).len()
            + 12,
        proto < 3 ==> controller_body(dev, proto, version).len() == controller_body(dev, 2, version).len(),
        proto >= 3 ==> controller_data(dev, proto, version).len() == controller_data(dev, 2, version).len() + 12,
{
    lemma_body_parts(dev, proto, version);
    lemma_body_parts(dev, 2, version);
    lemma_mode_block_len(proto, dev.total_leds);
    lemma_sized_parts(body_head(dev, version), mode_block(proto, dev.total_leds), body_tail(dev));
}


proof fn lemma_zone_leds_prefix(zone: Seq<u8>, count: nat, base: nat, k: nat)
    requires
        k <= count,
    ensures
        zone_leds(zone, k, base).len() <= zone_leds(zone, count, base).len(),
        forall|i: int|
            0 <= i < zone_leds(zone, k, base).len() ==> zone_leds(zone, count, base)[i] == zone_leds(zone, k, base)[i],
    decreases count,
{
    if k < count {
        lemma_zone_leds_prefix(zone, (count - 1) as nat, base, k);
        let a = zone_leds(zone, (count - 1) as nat, base);
        let rest = orgb_string(led_name(zone, count)) + le_u32((base + count - 1) as u32);
        assert(zone_leds(zone, count, base) == a + rest);
        assert forall|i: int| 0 <= i < a.len() implies zone_leds(zone, count, base)[i] == a[i] by {
            assert((a + rest)[i] == a[i]);
        }
    }
}

proof fn lemma_led_table_prefix(zones: Seq<ZoneInfo>, m: int)
    requires
        0 <= m <= zones.len(),
    ensures
        led_table(zones.take(m)).len() <= led_table(zones).len(),
        forall|i: int| 0 <= i < led_table(zones.take(m)).len() ==> led_table(zones)[i] == led_table(zones.take(m))[i],
    decreases zones.len(),
{
    if m < zones.len() {
        let d = zones.drop_last();
        assert(d.take(m) =~= zones.take(m));
        lemma_led_table_prefix(d, m);
        let a = led_table(d);
        let rest = zone_leds(utf8(zones.last().name@), zones.last().led_count as nat, leds_in(d));
        assert(led_table(zones) == a + rest);
        assert forall|i: int| 0 <= i < a.len() implies led_table(zones)[i] == a[i] by {
            assert((a + rest)[i] == a[i]);
        }
    } else {
        assert(zones.take(m) =~= zones);
    }
}

/// LEDs are numbered consecutively across zones: in the LED table of a
/// controller description, the descriptor of LED `k` (counting from 1) of
/// zone `z` is its name followed by the index "LEDs of the zones before `z`
/// plus `k - 1`", and it stands right after the descriptors of the zones
/// before and of the zone's earlier LEDs.
pub proof fn law_led_indices_consecutive(zones: Seq<ZoneInfo>, z: int, k: nat)
    requires
        0 <= z < zones.len(),
        1 <= k <= zones[z].led_count,
    ensures
        ({
            let before = zones.take(z);
            let name = utf8(zones[z].name@);
            let entry = orgb_string(led_name(name, k)) + le_u32((leds_in(before) + k - 1) as u32);
            let at = led_table(before).len() + zone_leds(name, (k - 1) as nat, leds_in(before)).len();
            &&& at + entry.len() <= led_table(zones).len()
            &&& led_table(zones).subrange(at as int, (at + entry.len()) as int) == entry
        }),
{
    let before = zones.take(z);
    let upto = zones.take(z + 1);
    let name = utf8(zones[z].name@);
    let base = leds_in(before);
    let count = zones[z].led_count as nat;
    assert(upto.drop_last() =~= before);
    assert(upto.last() == zones[z]);
    let p = led_table(before);
    let zl = zone_leds(name, count, base);
    assert(led_table(upto) == p + zl);
    lemma_led_table_prefix(zones, z + 1);
    lemma_zone_leds_prefix(name, count, base, k);
    let head = zone_leds(name, (k - 1) as nat, base);
    let entry = orgb_string(led_name(name, k)) + le_u32((base + k - 1) as u32);
    assert(zone_leds(name, k, base) == head + entry);
    let t = led_table(zones);
    let at = p.len() + head.len();
    assert forall|i: int| 0 <= i < entry.len() implies t.subrange(at as int, (at + entry.len()) as int)[i] == entry[i] by {
        assert(t[at + i] == led_table(upto)[at + i]);
        assert((p + zl)[at + i] == zl[head.len() + i]);
        assert(zl[head.len() + i] == zone_leds(name, k, base)[head.len() + i]);
        assert((head + entry)[head.len() + i] == entry[i]);
    }
    assert(t.subrange(at as int, (at + entry.len()) as int) =~= entry);
}
} // verus!
