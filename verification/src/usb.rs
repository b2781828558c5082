//! The FunctionFS descriptor image the gadget writes to `ep0` before any
//! bulk traffic: a V2 descriptor set declaring the ADB interface with two
//! bulk endpoints for three speeds plus the Microsoft OS descriptors, and
//! the string table.  The kernel rejects the blob unless every declared
//! length matches the bytes exactly, so the layout is pinned byte for byte.

use vstd::prelude::*;
use vstd::bytes::*;

verus! {

/// Byte length of the whole V2 descriptor image.
pub const DESC_V2_LENGTH: u32 = 228;

/// Byte length of the string table image.
pub const STRINGS_LENGTH: u32 = 32;

/// The compat id "WINUSB", NUL-padded to 8 bytes.
pub open spec fn compat_id_winusb() -> Seq<u8> {
    seq![0x57u8, 0x49u8, 0x4eu8, 0x55u8, 0x53u8, 0x42u8, 0x00u8, 0x00u8]
}

/// The extended-property name "DeviceInterfaceGUID", NUL-terminated.
pub open spec fn dev_iface_guid_name() -> Seq<u8> {
    seq![
        0x44u8, 0x65u8, 0x76u8, 0x69u8, 0x63u8, 0x65u8, 0x49u8, 0x6eu8, 0x74u8, 0x65u8, 0x72u8, 0x66u8,
        0x61u8, 0x63u8, 0x65u8, 0x47u8, 0x55u8, 0x49u8, 0x44u8, 0x00u8,
    ]
}

/// The DeviceInterfaceGUID property value, NUL-terminated.
pub open spec fn dev_iface_guid_value() -> Seq<u8> {
    seq![
        0x7bu8, 0x46u8, 0x37u8, 0x32u8, 0x46u8, 0x45u8, 0x30u8, 0x44u8, 0x34u8, 0x2du8, 0x43u8, 0x42u8,
        0x43u8, 0x42u8, 0x2du8, 0x34u8, 0x30u8, 0x37u8, 0x44u8, 0x2du8, 0x38u8, 0x38u8, 0x31u8, 0x34u8,
        0x2du8, 0x39u8, 0x45u8, 0x44u8, 0x36u8, 0x37u8, 0x33u8, 0x44u8, 0x30u8, 0x44u8, 0x44u8, 0x36u8,
        0x42u8, 0x7du8, 0x00u8,
    ]
}

/// The one interface string, "ADB Interface", NUL-terminated.
pub open spec fn adb_iface_string() -> Seq<u8> {
    seq![
        0x41u8, 0x44u8, 0x42u8, 0x20u8, 0x49u8, 0x6eu8, 0x74u8, 0x65u8, 0x72u8, 0x66u8, 0x61u8, 0x63u8,
        0x65u8, 0x00u8,
    ]
}

/// Appends a 32-bit word little-endian.
fn push_u32_le(out: &mut Vec<u8>, x: u32)
    ensures
        final(out)@ == old(out)@ + spec_u32_to_le_bytes(x),
{
    let mut w = u32_to_le_bytes(x);
    out.append(&mut w);
}

/// Appends a 16-bit word little-endian.
fn push_u16_le(out: &mut Vec<u8>, x: u16)
    ensures
        final(out)@ == old(out)@ + spec_u16_to_le_bytes(x),
{
    let mut w = u16_to_le_bytes(x);
    out.append(&mut w);
}

/// Appends a byte vector unchanged.
fn push_vec(out: &mut Vec<u8>, s: &Vec<u8>)
    ensures
        final(out)@ == old(out)@ + s@,
{
    let mut w = vstd::slice::slice_to_vec(s.as_slice());
    out.append(&mut w);
}

/// Relies on libusb1_sys::constants::LIBUSB_DT_INTERFACE, the USB descriptor
/// type code of an interface descriptor.
#[verifier::external_body]
fn dt_interface() -> (r: u8)
    ensures
        r == 0x04,
{
    libusb1_sys::constants::LIBUSB_DT_INTERFACE
}

/// Relies on libusb1_sys::constants::LIBUSB_DT_ENDPOINT, the USB descriptor
/// type code of an endpoint descriptor.
#[verifier::external_body]
fn dt_endpoint() -> (r: u8)
    ensures
        r == 0x05,
{
    libusb1_sys::constants::LIBUSB_DT_ENDPOINT
}

/// Relies on libusb1_sys::constants::LIBUSB_DT_SS_ENDPOINT_COMPANION, the USB
/// descriptor type code of a SuperSpeed endpoint companion.
#[verifier::external_body]
fn dt_ss_endpoint_companion() -> (r: u8)
    ensures
        r == 0x30,
{
    libusb1_sys::constants::LIBUSB_DT_SS_ENDPOINT_COMPANION
}

/// USB interface descriptor, 9 bytes.
pub struct InterfaceDesc {
    pub length: u8,
    pub desc_type: u8,
    pub interface_num: u8,
    pub alt_setting: u8,
    pub num_endpoints: u8,
    pub class: u8,
    pub subclass: u8,
    pub proto: u8,
    pub interface: u8,
}

impl InterfaceDesc {
    pub open spec fn bytes_spec(self) -> Seq<u8> {
        seq![
            self.length, self.desc_type, self.interface_num, self.alt_setting, self.num_endpoints,
            self.class, self.subclass, self.proto, self.interface,
        ]
    }

    fn push_to(&self, out: &mut Vec<u8>)
        ensures
            final(out)@ == old(out)@ + self.bytes_spec(),
    {
        out.push(self.length);
        out.push(self.desc_type);
        out.push(self.interface_num);
        out.push(self.alt_setting);
        out.push(self.num_endpoints);
        out.push(self.class);
        out.push(self.subclass);
        out.push(self.proto);
        out.push(self.interface);
        proof {
            assert(out@ =~= old(out)@ + self.bytes_spec());
        }
    }
}

/// The ADB interface: vendor class 0xff, subclass 0x42, protocol 1, two
/// endpoints, named by string index 1.
pub open spec fn is_adb_interface(d: InterfaceDesc) -> bool {
    &&& d.length == 9
    &&& d.desc_type == 0x04
    &&& d.interface_num == 0
    &&& d.alt_setting == 0
    &&& d.num_endpoints == 2
    &&& d.class == 0xff
    &&& d.subclass == 0x42
    &&& d.proto == 1
    &&& d.interface == 1
}

fn adb_interface() -> (r: InterfaceDesc)
    ensures
        is_adb_interface(r),
{
    InterfaceDesc {
        length: 9,
        desc_type: dt_interface(),
        interface_num: 0,
        alt_setting: 0,
        num_endpoints: 2,
        class: 0xff,
        subclass: 0x42,
        proto: 1,
        interface: 1,
    }
}

/// USB endpoint descriptor without audio fields, 7 bytes.
pub struct EndpointDescNoAudio {
    pub length: u8,
    pub desc_type: u8,
    pub addr: u8,
    pub attr: u8,
    pub max_packet_size: u16,
    pub interval: u8,
}

impl EndpointDescNoAudio {
    pub open spec fn bytes_spec(self) -> Seq<u8> {
        seq![self.length, self.desc_type, self.addr, self.attr] + spec_u16_to_le_bytes(
            self.max_packet_size,
        ) + seq![self.interval]
    }

    fn push_to(&self, out: &mut Vec<u8>)
        ensures
            final(out)@ == old(out)@ + self.bytes_spec(),
    {
        out.push(self.length);
        out.push(self.desc_type);
        out.push(self.addr);
        out.push(self.attr);
        push_u16_le(out, self.max_packet_size);
        out.push(self.interval);
        proof {
            assert(out@ =~= old(out)@ + self.bytes_spec());
        }
    }
}

/// The bulk-OUT endpoint (host to device), address 1.
pub open spec fn is_bulk_out_ep(d: EndpointDescNoAudio, mps: u16) -> bool {
    &&& d.length == 7
    &&& d.desc_type == 0x05
    &&& d.addr == 0x01
    &&& d.attr == 2
    &&& d.max_packet_size == mps
    &&& d.interval == 0
}

/// The bulk-IN endpoint (device to host), address 2 with the IN direction bit.
pub open spec fn is_bulk_in_ep(d: EndpointDescNoAudio, mps: u16) -> bool {
    &&& d.length == 7
    &&& d.desc_type == 0x05
    &&& d.addr == 0x82
    &&& d.attr == 2
    &&& d.max_packet_size == mps
    &&& d.interval == 0
}

fn bulk_out_ep(mps: u16) -> (r: EndpointDescNoAudio)
    ensures
        is_bulk_out_ep(r, mps),
{
    EndpointDescNoAudio {
        length: 7,
        desc_type: dt_endpoint(),
        addr: 0x01,
        attr: 2,
        max_packet_size: mps,
        interval: 0,
    }
}

fn bulk_in_ep(mps: u16) -> (r: EndpointDescNoAudio)
    ensures
        is_bulk_in_ep(r, mps),
{
    EndpointDescNoAudio {
        length: 7,
        desc_type: dt_endpoint(),
        addr: 0x82,
        attr: 2,
        max_packet_size: mps,
        interval: 0,
    }
}

/// Interface plus its two bulk endpoints, for one speed.
pub struct FuncDesc {
    pub interface: InterfaceDesc,
    pub source: EndpointDescNoAudio,
    pub sink: EndpointDescNoAudio,
}

impl FuncDesc {
    pub open spec fn bytes_spec(self) -> Seq<u8> {
        self.interface.bytes_spec() + self.source.bytes_spec() + self.sink.bytes_spec()
    }

    fn push_to(&self, out: &mut Vec<u8>)
        ensures
            final(out)@ == old(out)@ + self.bytes_spec(),
    {
        self.interface.push_to(out);
        self.source.push_to(out);
        self.sink.push_to(out);
        proof {
            assert(out@ =~= old(out)@ + self.bytes_spec());
        }
    }
}

/// The ADB function at one speed: its interface and both bulk endpoints with
/// the speed's packet size.
pub open spec fn is_adb_func_desc(f: FuncDesc, mps: u16) -> bool {
    &&& is_adb_interface(f.interface)
    &&& is_bulk_out_ep(f.source, mps)
    &&& is_bulk_in_ep(f.sink, mps)
}

fn adb_func_desc(mps: u16) -> (r: FuncDesc)
    ensures
        is_adb_func_desc(r, mps),
{
    FuncDesc { interface: adb_interface(), source: bulk_out_ep(mps), sink: bulk_in_ep(mps) }
}

/// SuperSpeed endpoint companion descriptor, 6 bytes.
pub struct SsEpCompDesc {
    pub length: u8,
    pub desc_type: u8,
    pub max_burst: u8,
    pub attr: u8,
    pub bytes_per_interval: u16,
}

impl SsEpCompDesc {
    pub open spec fn bytes_spec(self) -> Seq<u8> {
        seq![self.length, self.desc_type, self.max_burst, self.attr] + spec_u16_to_le_bytes(
            self.bytes_per_interval,
        )
    }

    fn push_to(&self, out: &mut Vec<u8>)
        ensures
            final(out)@ == old(out)@ + self.bytes_spec(),
    {
        out.push(self.length);
        out.push(self.desc_type);
        out.push(self.max_burst);
        out.push(self.attr);
        push_u16_le(out, self.bytes_per_interval);
        proof {
            assert(out@ =~= old(out)@ + self.bytes_spec());
        }
    }
}

pub open spec fn is_ss_ep_comp(c: SsEpCompDesc) -> bool {
    &&& c.length == 6
    &&& c.desc_type == 0x30
    &&& c.max_burst == 4
    &&& c.attr == 0
    &&& c.bytes_per_interval == 0
}

fn ss_ep_comp() -> (r: SsEpCompDesc)
    ensures
        is_ss_ep_comp(r),
{
    SsEpCompDesc {
        length: 6,
        desc_type: dt_ss_endpoint_companion(),
        max_burst: 4,
        attr: 0,
        bytes_per_interval: 0,
    }
}

/// SuperSpeed function: each endpoint followed by its companion.
pub struct SsFuncDesc {
    pub interface: InterfaceDesc,
    pub source: EndpointDescNoAudio,
    pub source_comp: SsEpCompDesc,
    pub sink: EndpointDescNoAudio,
    pub sink_comp: SsEpCompDesc,
}

impl SsFuncDesc {
    pub open spec fn bytes_spec(self) -> Seq<u8> {
        self.interface.bytes_spec() + self.source.bytes_spec() + self.source_comp.bytes_spec()
            + self.sink.bytes_spec() + self.sink_comp.bytes_spec()
    }

    fn push_to(&self, out: &mut Vec<u8>)
        ensures
            final(out)@ == old(out)@ + self.bytes_spec(),
    {
        self.interface.push_to(out);
        self.source.push_to(out);
        self.source_comp.push_to(out);
        self.sink.push_to(out);
        self.sink_comp.push_to(out);
        proof {
            assert(out@ =~= old(out)@ + self.bytes_spec());
        }
    }
}

pub open spec fn is_adb_ss_func_desc(f: SsFuncDesc) -> bool {
    &&& is_adb_interface(f.interface)
    &&& is_bulk_out_ep(f.source, 1024)
    &&& is_ss_ep_comp(f.source_comp)
    &&& is_bulk_in_ep(f.sink, 1024)
    &&& is_ss_ep_comp(f.sink_comp)
}

fn adb_ss_func_desc() -> (r: SsFuncDesc)
    ensures
        is_adb_ss_func_desc(r),
{
    SsFuncDesc {
        interface: adb_interface(),
        source: bulk_out_ep(1024),
        source_comp: ss_ep_comp(),
        sink: bulk_in_ep(1024),
        sink_comp: ss_ep_comp(),
    }
}

/// Microsoft OS descriptor section header, 11 bytes.
pub struct OsHeader {
    pub iface: u8,
    pub len: u32,
    pub bcd_ver: u16,
    pub idx: u16,
    pub count: u8,
    pub reserved: u8,
}

impl OsHeader {
    pub open spec fn bytes_spec(self) -> Seq<u8> {
        seq![self.iface] + spec_u32_to_le_bytes(self.len) + spec_u16_to_le_bytes(self.bcd_ver)
            + spec_u16_to_le_bytes(self.idx) + seq![self.count, self.reserved]
    }

    fn push_to(&self, out: &mut Vec<u8>)
        ensures
            final(out)@ == old(out)@ + self.bytes_spec(),
    {
        out.push(self.iface);
        push_u32_le(out, self.len);
        push_u16_le(out, self.bcd_ver);
        push_u16_le(out, self.idx);
        out.push(self.count);
        out.push(self.reserved);
        proof {
            assert(out@ =~= old(out)@ + self.bytes_spec());
        }
    }
}

/// The section header covering `len` bytes at string index `idx`.
pub open spec fn is_os_header(h: OsHeader, len: u32, idx: u16) -> bool {
    &&& h.iface == 0
    &&& h.len == len
    &&& h.bcd_ver == 1
    &&& h.idx == idx
    &&& h.count == 1
    &&& h.reserved == 0
}

fn os_header(len: u32, idx: u16) -> (r: OsHeader)
    ensures
        is_os_header(r, len, idx),
{
    OsHeader { iface: 0, len, bcd_ver: 1, idx, count: 1, reserved: 0 }
}

/// Microsoft extended compat id descriptor, 24 bytes.
pub struct ExtCompatDesc {
    pub first_iface_num: u8,
    pub res1: u8,
    pub compat_id: Vec<u8>,
    pub sub_compat_id: Vec<u8>,
    pub res_2: Vec<u8>,
}

impl ExtCompatDesc {
    pub open spec fn bytes_spec(self) -> Seq<u8> {
        seq![self.first_iface_num, self.res1] + self.compat_id@ + self.sub_compat_id@ + self.res_2@
    }

    fn push_to(&self, out: &mut Vec<u8>)
        ensures
            final(out)@ == old(out)@ + self.bytes_spec(),
    {
        out.push(self.first_iface_num);
        out.push(self.res1);
        push_vec(out, &self.compat_id);
        push_vec(out, &self.sub_compat_id);
        push_vec(out, &self.res_2);
        proof {
            assert(out@ =~= old(out)@ + self.bytes_spec());
        }
    }
}

/// The WINUSB compat id, with zeroed sub-compat id and reserved bytes.
pub open spec fn is_winusb_compat_desc(d: ExtCompatDesc) -> bool {
    &&& d.first_iface_num == 0
    &&& d.res1 == 1
    &&& d.compat_id@ == compat_id_winusb()
    &&& d.sub_compat_id@ == seq![0u8, 0u8, 0u8, 0u8, 0u8, 0u8, 0u8, 0u8]
    &&& d.res_2@ == seq![0u8, 0u8, 0u8, 0u8, 0u8, 0u8]
}

fn winusb_compat_desc() -> (r: ExtCompatDesc)
    ensures
        is_winusb_compat_desc(r),
{
    let compat_id: Vec<u8> = vec![0x57u8, 0x49u8, 0x4eu8, 0x55u8, 0x53u8, 0x42u8, 0x00u8, 0x00u8];
    let sub_compat_id: Vec<u8> = vec![0u8, 0u8, 0u8, 0u8, 0u8, 0u8, 0u8, 0u8];
    let res_2: Vec<u8> = vec![0u8, 0u8, 0u8, 0u8, 0u8, 0u8];
    proof {
        assert(compat_id@ =~= compat_id_winusb());
    }
    ExtCompatDesc { first_iface_num: 0, res1: 1, compat_id, sub_compat_id, res_2 }
}

/// Microsoft extended property values: the DeviceInterfaceGUID, 73 bytes.
pub struct OsPropValues {
    pub len: u32,
    pub data_type: u32,
    pub name_len: u16,
    pub name: Vec<u8>,
    pub prop_len: u32,
    pub prop: Vec<u8>,
}

impl OsPropValues {
    pub open spec fn bytes_spec(self) -> Seq<u8> {
        spec_u32_to_le_bytes(self.len) + spec_u32_to_le_bytes(self.data_type)
            + spec_u16_to_le_bytes(self.name_len) + self.name@ + spec_u32_to_le_bytes(
            self.prop_len,
        ) + self.prop@
    }

    fn push_to(&self, out: &mut Vec<u8>)
        ensures
            final(out)@ == old(out)@ + self.bytes_spec(),
    {
        push_u32_le(out, self.len);
        push_u32_le(out, self.data_type);
        push_u16_le(out, self.name_len);
        push_vec(out, &self.name);
        push_u32_le(out, self.prop_len);
        push_vec(out, &self.prop);
        proof {
            assert(out@ =~= old(out)@ + self.bytes_spec());
        }
    }
}

/// The one extended property: a REG_SZ (data type 1) named
/// DeviceInterfaceGUID, carrying the GUID string.
pub open spec fn is_guid_prop_values(p: OsPropValues) -> bool {
    &&& p.len == 73
    &&& p.data_type == 1
    &&& p.name_len == 20
    &&& p.name@ == dev_iface_guid_name()
    &&& p.prop_len == 39
    &&& p.prop@ == dev_iface_guid_value()
}

fn guid_prop_values() -> (r: OsPropValues)
    ensures
        is_guid_prop_values(r),
{
    let name: Vec<u8> = vec![
        0x44u8, 0x65u8, 0x76u8, 0x69u8, 0x63u8, 0x65u8, 0x49u8, 0x6eu8, 0x74u8, 0x65u8, 0x72u8, 0x66u8,
        0x61u8, 0x63u8, 0x65u8, 0x47u8, 0x55u8, 0x49u8, 0x44u8, 0x00u8,
    ];
    let prop: Vec<u8> = vec![
        0x7bu8, 0x46u8, 0x37u8, 0x32u8, 0x46u8, 0x45u8, 0x30u8, 0x44u8, 0x34u8, 0x2du8, 0x43u8, 0x42u8,
        0x43u8, 0x42u8, 0x2du8, 0x34u8, 0x30u8, 0x37u8, 0x44u8, 0x2du8, 0x38u8, 0x38u8, 0x31u8, 0x34u8,
        0x2du8, 0x39u8, 0x45u8, 0x44u8, 0x36u8, 0x37u8, 0x33u8, 0x44u8, 0x30u8, 0x44u8, 0x44u8, 0x36u8,
        0x42u8, 0x7du8, 0x00u8,
    ];
    proof {
        assert(name@ =~= dev_iface_guid_name());
        assert(prop@ =~= dev_iface_guid_value());
    }
    OsPropValues { len: 73, data_type: 1, name_len: 20, name, prop_len: 39, prop }
}

/// The whole FunctionFS V2 descriptor record.
pub struct DescV2 {
    pub magic: u32,
    pub length: u32,
    pub flags: u32,
    pub fs_count: u32,
    pub hs_count: u32,
    pub ss_count: u32,
    pub os_count: u32,
    pub fs_descs: FuncDesc,
    pub hs_descs: FuncDesc,
    pub ss_descs: SsFuncDesc,
    pub os_header: OsHeader,
    pub os_desc: ExtCompatDesc,
    pub os_prop_header: OsHeader,
    pub os_prop_values: OsPropValues,
}

impl DescV2 {
    pub open spec fn bytes_spec(self) -> Seq<u8> {
        spec_u32_to_le_bytes(self.magic) + spec_u32_to_le_bytes(self.length) + spec_u32_to_le_bytes(
            self.flags,
        ) + spec_u32_to_le_bytes(self.fs_count) + spec_u32_to_le_bytes(self.hs_count)
            + spec_u32_to_le_bytes(self.ss_count) + spec_u32_to_le_bytes(self.os_count)
            + self.fs_descs.bytes_spec() + self.hs_descs.bytes_spec() + self.ss_descs.bytes_spec()
            + self.os_header.bytes_spec() + self.os_desc.bytes_spec()
            + self.os_prop_header.bytes_spec() + self.os_prop_values.bytes_spec()
    }

    /// The descriptor image as written to `ep0`: V2 magic, total length,
    /// speed flags and counts, then the per-speed function descriptors and
    /// the Microsoft OS sections, all packed little-endian.
    pub open spec fn wf_exact(self) -> bool {
        &&& self.magic == 3
        &&& self.length == DESC_V2_LENGTH
        &&& self.flags == 0xf
        &&& self.fs_count == 3
        &&& self.hs_count == 3
        &&& self.ss_count == 5
        &&& self.os_count == 2
        &&& is_adb_func_desc(self.fs_descs, 64)
        &&& is_adb_func_desc(self.hs_descs, 512)
        &&& is_adb_ss_func_desc(self.ss_descs)
        &&& is_os_header(self.os_header, 35, 4)
        &&& is_winusb_compat_desc(self.os_desc)
        &&& is_os_header(self.os_prop_header, 84, 5)
        &&& is_guid_prop_values(self.os_prop_values)
    }

    /// The packed little-endian image of the record.
    pub fn as_bytes(&self) -> (r: Vec<u8>)
        ensures
            r@ == self.bytes_spec(),
    {
        let mut out: Vec<u8> = Vec::new();
        push_u32_le(&mut out, self.magic);
        push_u32_le(&mut out, self.length);
        push_u32_le(&mut out, self.flags);
        push_u32_le(&mut out, self.fs_count);
        push_u32_le(&mut out, self.hs_count);
        push_u32_le(&mut out, self.ss_count);
        push_u32_le(&mut out, self.os_count);
        self.fs_descs.push_to(&mut out);
        self.hs_descs.push_to(&mut out);
        self.ss_descs.push_to(&mut out);
        self.os_header.push_to(&mut out);
        self.os_desc.push_to(&mut out);
        self.os_prop_header.push_to(&mut out);
        self.os_prop_values.push_to(&mut out);
        proof {
            assert(out@ =~= self.bytes_spec());
        }
        out
    }
}

/// Builds the ADB descriptor record: full, high and SuperSpeed function
/// descriptors plus the WINUSB compat id and the DeviceInterfaceGUID
/// property.
pub fn adb_descriptor_v2() -> (r: DescV2)
    ensures
        r.wf_exact(),
{
    DescV2 {
        magic: 3,
        length: DESC_V2_LENGTH,
        flags: 0xf,
        fs_count: 3,
        hs_count: 3,
        ss_count: 5,
        os_count: 2,
        fs_descs: adb_func_desc(64),
        hs_descs: adb_func_desc(512),
        ss_descs: adb_ss_func_desc(),
        os_header: os_header(35, 4),
        os_desc: winusb_compat_desc(),
        os_prop_header: os_header(84, 5),
        os_prop_values: guid_prop_values(),
    }
}

/// The FunctionFS string table.
pub struct FfsStringData {
    pub magic: u32,
    pub length: u32,
    pub str_count: u32,
    pub lang_count: u32,
    pub code: u16,
    pub str1: Vec<u8>,
}

impl FfsStringData {
    pub open spec fn bytes_spec(self) -> Seq<u8> {
        spec_u32_to_le_bytes(self.magic) + spec_u32_to_le_bytes(self.length) + spec_u32_to_le_bytes(
            self.str_count,
        ) + spec_u32_to_le_bytes(self.lang_count) + spec_u16_to_le_bytes(self.code) + self.str1@
    }

    /// One string in one language (US English), the interface name.
    pub open spec fn wf_exact(self) -> bool {
        &&& self.magic == 2
        &&& self.length == STRINGS_LENGTH
        &&& self.str_count == 1
        &&& self.lang_count == 1
        &&& self.code == 0x0409
        &&& self.str1@ == adb_iface_string()
    }

    /// The packed little-endian image of the string table.
    pub fn as_bytes(&self) -> (r: Vec<u8>)
        ensures
            r@ == self.bytes_spec(),
    {
        let mut out: Vec<u8> = Vec::new();
        push_u32_le(&mut out, self.magic);
        push_u32_le(&mut out, self.length);
        push_u32_le(&mut out, self.str_count);
        push_u32_le(&mut out, self.lang_count);
        push_u16_le(&mut out, self.code);
        push_vec(&mut out, &self.str1);
        proof {
            assert(out@ =~= self.bytes_spec());
        }
        out
    }
}

/// Builds the string table advertising "ADB Interface".
pub fn adb_strings() -> (r: FfsStringData)
    ensures
        r.wf_exact(),
{
    let str1: Vec<u8> = vec![
        0x41u8, 0x44u8, 0x42u8, 0x20u8, 0x49u8, 0x6eu8, 0x74u8, 0x65u8, 0x72u8, 0x66u8, 0x61u8, 0x63u8,
        0x65u8, 0x00u8,
    ];
    proof {
        assert(str1@ =~= adb_iface_string());
    }
    FfsStringData { magic: 2, length: STRINGS_LENGTH, str_count: 1, lang_count: 1, code: 0x0409, str1 }
}

/// The descriptor image is a constant: any two records that satisfy the
/// exact layout serialize to identical bytes.
pub proof fn lemma_descriptor_image_fixed(a: DescV2, b: DescV2)
    requires
        a.wf_exact(),
        b.wf_exact(),
    ensures
        a.bytes_spec() == b.bytes_spec(),
{
}

/// The string table image is a constant in the same way.
pub proof fn lemma_strings_image_fixed(a: FfsStringData, b: FfsStringData)
    requires
        a.wf_exact(),
        b.wf_exact(),
    ensures
        a.bytes_spec() == b.bytes_spec(),
{
}

/// The image is as long as its length field declares, as the kernel demands.
pub proof fn lemma_descriptor_len(d: DescV2)
    requires
        d.wf_exact(),
    ensures
        d.bytes_spec().len() == d.length,
        d.length == DESC_V2_LENGTH,
{
    lemma_auto_spec_u32_to_from_le_bytes();
    lemma_auto_spec_u16_to_from_le_bytes();
}

/// The string table likewise declares its own byte length.
pub proof fn lemma_strings_len(s: FfsStringData)
    requires
        s.wf_exact(),
    ensures
        s.bytes_spec().len() == s.length,
        s.length == STRINGS_LENGTH,
{
    lemma_auto_spec_u32_to_from_le_bytes();
    lemma_auto_spec_u16_to_from_le_bytes();
}

} // verus!
