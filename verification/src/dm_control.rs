//! Messages to the device mapper, byte by byte.

use crate::byte_order::{
    bytes_of, law_bytes_read_back, lemma_from_le_bound, lemma_le_len, lemma_spans, number_of,
    push_number, read_number, ByteOrder,
};
use vstd::arithmetic::power2::{
    lemma2_to64, lemma_pow2_strictly_increases, lemma_pow2_unfold, pow2,
};
use vstd::prelude::*;
use vstd::utf8::{encode_utf8, valid_utf8};

verus! {

/// The version of the interface that is asked for.
pub const DM_VERSION: [u32; 3] = [4, 0, 0];

/// Where messages go.
pub const DM_CONTROL_PATH: &'static str = "/dev/mapper/control";

/// The buffer to begin with: large, so that it is rarely too small.
pub const DEF_BUF_SIZE: usize = 16384;

/// The size of a message's head.
pub const DM_IOCTL_SIZE: usize = 312;

pub const DM_NAME_LEN: usize = 128;

pub const DM_UUID_LEN: usize = 129;

/// The size of a target's head.
pub const DM_TARGET_SPEC_SIZE: usize = 40;

pub const DM_MAX_TYPE_NAME: usize = 16;

/// Where the name begins in an entry of the list of devices.
pub const DM_NAME_LIST_OFFSET: usize = 12;

pub const DM_READONLY_FLAG: u32 = 1;

/// The answer did not fit.
pub const DM_BUFFER_FULL_FLAG: u32 = 256;

/// Remove the device once it is closed.
pub const DM_DEFERRED_REMOVE: u32 = 131072;

/// The letter of the device mapper's commands.
pub const DM_IOCTL: u8 = 0xfd;

pub const DM_LIST_DEVICES_CMD: u8 = 2;

pub const DM_DEV_CREATE_CMD: u8 = 3;

pub const DM_DEV_REMOVE_CMD: u8 = 4;

pub const DM_DEV_SUSPEND_CMD: u8 = 6;

pub const DM_TABLE_LOAD_CMD: u8 = 9;

/// The commands that are used.
#[derive(Debug, Clone, Copy, PartialEq, Eq, Structural)]
pub enum DmCommand {
    DevCreate,
    DevRemove,
    DevSuspend,
    ListDevices,
    TableLoad,
}

/// The number of a command.
pub open spec fn command_number(command: DmCommand) -> u8 {
    match command {
        DmCommand::DevCreate => DM_DEV_CREATE_CMD,
        DmCommand::DevRemove => DM_DEV_REMOVE_CMD,
        DmCommand::DevSuspend => DM_DEV_SUSPEND_CMD,
        DmCommand::ListDevices => DM_LIST_DEVICES_CMD,
        DmCommand::TableLoad => DM_TABLE_LOAD_CMD,
    }
}

/// The flags of a command.
pub open spec fn command_flags(command: DmCommand) -> u32 {
    if command is DevRemove {
        DM_DEFERRED_REMOVE
    } else {
        DM_READONLY_FLAG
    }
}

/// Commands go by the kernel's numbers, no two by the same, and only a removal is put off;
/// whatever is made is read-only.
pub proof fn law_commands(a: DmCommand, b: DmCommand)
    ensures
        command_number(DmCommand::ListDevices) == 2,
        command_number(DmCommand::DevCreate) == 3,
        command_number(DmCommand::DevRemove) == 4,
        command_number(DmCommand::DevSuspend) == 6,
        command_number(DmCommand::TableLoad) == 9,
        command_number(a) == command_number(b) ==> a == b,
        command_flags(DmCommand::DevRemove) == 0x20000,
        !(a is DevRemove) ==> command_flags(a) == 1,
{
}

impl DmCommand {
    pub fn number(&self) -> (r: u8)
        ensures
            r == command_number(*self),
            r == match *self {
                DmCommand::DevCreate => 3u8,
                DmCommand::DevRemove => 4u8,
                DmCommand::DevSuspend => 6u8,
                DmCommand::ListDevices => 2u8,
                DmCommand::TableLoad => 9u8,
            },
    {
        match self {
            DmCommand::DevCreate => DM_DEV_CREATE_CMD,
            DmCommand::DevRemove => DM_DEV_REMOVE_CMD,
            DmCommand::DevSuspend => DM_DEV_SUSPEND_CMD,
            DmCommand::ListDevices => DM_LIST_DEVICES_CMD,
            DmCommand::TableLoad => DM_TABLE_LOAD_CMD,
        }
    }

    /// What a command is sent with: a removal is put off until the device is closed, and
    /// all else concerns read-only devices.
    pub fn flags(&self) -> (r: u32)
        ensures
            r == command_flags(*self),
            r == if *self is DevRemove {
                DM_DEFERRED_REMOVE
            } else {
                DM_READONLY_FLAG
            },
    {
        match self {
            DmCommand::DevRemove => DM_DEFERRED_REMOVE,
            _ => DM_READONLY_FLAG,
        }
    }
}

/// The head of a message.
#[derive(Debug, Clone, Copy)]
pub struct DmIoctlHeader {
    pub version: [u32; 3],
    pub data_size: u32,
    pub data_start: u32,
    pub target_count: u32,
    pub open_count: u32,
    pub flags: u32,
    pub event_nr: u32,
    pub padding: u32,
    pub dev: u64,
    pub name: [u8; 128],
    pub uuid: [u8; 129],
}

impl DmIoctlHeader {
    /// A head with nothing in it.
    pub open spec fn is_blank(&self) -> bool {
        &&& self.version@ == seq![0u32, 0u32, 0u32]
        &&& self.data_size == 0
        &&& self.data_start == 0
        &&& self.target_count == 0
        &&& self.open_count == 0
        &&& self.flags == 0
        &&& self.event_nr == 0
        &&& self.padding == 0
        &&& self.dev == 0
        &&& forall|i: int| 0 <= i < 128 ==> self.name@[i] == 0
        &&& forall|i: int| 0 <= i < 129 ==> self.uuid@[i] == 0
    }
}

impl Default for DmIoctlHeader {
    fn default() -> (r: Self)
        ensures
            r.is_blank(),
    {
        let r = DmIoctlHeader {
            version: [0, 0, 0],
            data_size: 0,
            data_start: 0,
            target_count: 0,
            open_count: 0,
            flags: 0,
            event_nr: 0,
            padding: 0,
            dev: 0,
            name: [0u8; 128],
            uuid: [0u8; 129],
        };
        assert(r.version@ =~= seq![0u32, 0u32, 0u32]);
        r
    }
}

/// A device, by its two numbers.
#[derive(Debug, Clone, Copy, PartialEq, Eq, Structural)]
pub struct DeviceNum {
    major: u32,
    minor: u32,
}

/// The major number in the kernel's form of a device number: twelve bits from the eighth
/// on.
pub open spec fn kdev_major(kdev: u64) -> u32 {
    ((kdev & 0xfff00) >> 8) as u32
}

/// The minor number: the lowest eight bits, and twelve from the twentieth on.
pub open spec fn kdev_minor(kdev: u64) -> u32 {
    ((kdev & 0xff) | ((kdev >> 12) & 0xfff00)) as u32
}

pub open spec fn kdev_of(major: u32, minor: u32) -> u64 {
    (minor as u64) & 0xff | ((major as u64) << 8) | (((minor as u64) & !0xffu64) << 12)
}

impl DeviceNum {
    pub closed spec fn major_spec(&self) -> u32 {
        self.major
    }

    pub closed spec fn minor_spec(&self) -> u32 {
        self.minor
    }

    pub fn new(major: u32, minor: u32) -> (r: Self)
        ensures
            r.major_spec() == major,
            r.minor_spec() == minor,
    {
        DeviceNum { major, minor }
    }

    pub fn from_dm_ioctl(ioctl: &DmIoctlHeader) -> (r: Self)
        ensures
            r.major_spec() == kdev_major(ioctl.dev),
            r.minor_spec() == kdev_minor(ioctl.dev),
    {
        DeviceNum::from_kdev_t(ioctl.dev)
    }

    pub fn from_kdev_t(kdev: u64) -> (r: Self)
        ensures
            r.major_spec() == kdev_major(kdev),
            r.minor_spec() == kdev_minor(kdev),
    {
        assert((kdev & 0xfff00) >> 8 <= 0xfff) by (bit_vector);
        assert((kdev & 0xff) | ((kdev >> 12) & 0xfff00) <= 0xfffff) by (bit_vector);
        let major: u32 = ((kdev & 0xfff00) >> 8) as u32;
        let minor: u32 = ((kdev & 0xff) | ((kdev >> 12) & 0xfff00)) as u32;
        DeviceNum { major, minor }
    }

    pub fn as_kdev_t(&self) -> (r: u64)
        ensures
            r == kdev_of(self.major_spec(), self.minor_spec()),
    {
        let minor: u64 = self.minor as u64;
        let major: u64 = self.major as u64;
        minor & 0xff | (major << 8) | ((minor & !0xffu64) << 12)
    }

    pub fn minor(&self) -> (r: u32)
        ensures
            r == self.minor_spec(),
    {
        self.minor
    }

    pub fn major(&self) -> (r: u32)
        ensures
            r == self.major_spec(),
    {
        self.major
    }
}

/// A device number survives the kernel's form, as far as the form has bits: twelve for
/// the major number and twenty for the minor.
pub proof fn law_device_number_survives(major: u32, minor: u32)
    requires
        major < 0x1000,
        minor < 0x10_0000,
    ensures
        kdev_major(kdev_of(major, minor)) == major,
        kdev_minor(kdev_of(major, minor)) == minor,
{
    let a = major as u64;
    let i = minor as u64;
    let k = i & 0xff | (a << 8) | ((i & !0xffu64) << 12);
    assert(((k & 0xfff00) >> 8) == a) by (bit_vector)
        requires
            k == i & 0xff | (a << 8) | ((i & !0xffu64) << 12),
            a < 0x1000,
            i < 0x10_0000,
    ;
    assert(((k & 0xff) | ((k >> 12) & 0xfff00)) == i) by (bit_vector)
        requires
            k == i & 0xff | (a << 8) | ((i & !0xffu64) << 12),
            a < 0x1000,
            i < 0x10_0000,
    ;
}

/// A mapped device.
#[derive(Debug)]
pub struct DMDevice {
    dev_no: DeviceNum,
    device_name: String,
}

impl DMDevice {
    pub closed spec fn dev_no_spec(&self) -> DeviceNum {
        self.dev_no
    }

    pub closed spec fn name_spec(&self) -> Seq<char> {
        self.device_name@
    }

    pub fn new(dev_no: DeviceNum, device_name: String) -> (r: Self)
        ensures
            r.dev_no_spec() == dev_no,
            r.name_spec() == device_name@,
    {
        DMDevice { dev_no, device_name }
    }

    pub fn dev_no(&self) -> (r: &DeviceNum)
        ensures
            *r == self.dev_no_spec(),
    {
        &self.dev_no
    }

    pub fn device_name(&self) -> (r: String)
        ensures
            r@ == self.name_spec(),
    {
        self.device_name.clone()
    }
}

/// The head of a message while it is being made.
#[derive(Debug)]
pub struct DMIoctl {
    pub inner: DmIoctlHeader,
}

/// `after` is `before` with the bytes of a text and a zero at its start.
pub open spec fn text_set(before: Seq<u8>, bytes: Seq<u8>, after: Seq<u8>) -> bool {
    &&& after.len() == before.len()
    &&& forall|i: int| 0 <= i < bytes.len() ==> after[i] == bytes[i]
    &&& after[bytes.len() as int] == 0
    &&& forall|i: int| bytes.len() < i < before.len() ==> after[i] == before[i]
}

impl DMIoctl {
    pub fn new() -> (r: Self)
        ensures
            r.inner.version@ == DM_VERSION@,
            r.inner.data_start == DM_IOCTL_SIZE,
            r.inner.data_size == 0,
            r.inner.target_count == 0,
            r.inner.open_count == 0,
            r.inner.flags == 0,
            r.inner.event_nr == 0,
            r.inner.padding == 0,
            r.inner.dev == 0,
            forall|i: int| 0 <= i < 128 ==> r.inner.name@[i] == 0,
            forall|i: int| 0 <= i < 129 ==> r.inner.uuid@[i] == 0,
    {
        let blank = DmIoctlHeader::default();
        DMIoctl { inner: DmIoctlHeader { version: DM_VERSION, data_start: DM_IOCTL_SIZE as u32, ..blank } }
    }

    /// Names the device. A name has fewer than 128 bytes.
    pub fn set_name(self, name: &str) -> (r: Self)
        requires
            encode_utf8(name@).len() < 128,
        ensures
            text_set(self.inner.name@, encode_utf8(name@), r.inner.name@),
            r.inner == (DmIoctlHeader { name: r.inner.name, ..self.inner }),
    {
        let bytes = name.as_bytes();
        let mut inner = self.inner;
        let mut i: usize = 0;
        while i < bytes.len()
            invariant
                i <= bytes@.len() < 128,
                forall|j: int| 0 <= j < i ==> inner.name@[j] == bytes@[j],
                forall|j: int| i <= j < 128 ==> inner.name@[j] == self.inner.name@[j],
                inner == (DmIoctlHeader { name: inner.name, ..self.inner }),
            decreases bytes.len() - i,
        {
            inner.name[i] = bytes[i];
            i += 1;
        }
        inner.name[i] = 0;
        DMIoctl { inner }
    }

    /// Gives the device a unique id. It has fewer than 129 bytes.
    pub fn set_uuid(self, uuid: &str) -> (r: Self)
        requires
            encode_utf8(uuid@).len() < 129,
        ensures
            text_set(self.inner.uuid@, encode_utf8(uuid@), r.inner.uuid@),
            r.inner == (DmIoctlHeader { uuid: r.inner.uuid, ..self.inner }),
    {
        let bytes = uuid.as_bytes();
        let mut inner = self.inner;
        let mut i: usize = 0;
        while i < bytes.len()
            invariant
                i <= bytes@.len() < 129,
                forall|j: int| 0 <= j < i ==> inner.uuid@[j] == bytes@[j],
                forall|j: int| i <= j < 129 ==> inner.uuid@[j] == self.inner.uuid@[j],
                inner == (DmIoctlHeader { uuid: inner.uuid, ..self.inner }),
            decreases bytes.len() - i,
        {
            inner.uuid[i] = bytes[i];
            i += 1;
        }
        inner.uuid[i] = 0;
        DMIoctl { inner }
    }

    pub fn set_flags(self, flags: u32) -> (r: Self)
        ensures
            r.inner == (DmIoctlHeader { flags, ..self.inner }),
    {
        DMIoctl { inner: DmIoctlHeader { flags, ..self.inner } }
    }

    pub fn set_target_count(self, count: u32) -> (r: Self)
        ensures
            r.inner == (DmIoctlHeader { target_count: count, ..self.inner }),
    {
        DMIoctl { inner: DmIoctlHeader { target_count: count, ..self.inner } }
    }

    /// Makes room for `size` bytes of data behind the head, and never less than the
    /// default buffer. Of the sum, the field keeps the lowest 32 bits.
    pub fn set_data_size(self, size: u32) -> (r: Self)
        ensures
            r.inner == (DmIoctlHeader { data_size: size_field(size as int), ..self.inner }),
    {
        let needed: u64 = DM_IOCTL_SIZE as u64 + size as u64;
        let data_size: u32 = if needed < DEF_BUF_SIZE as u64 {
            DEF_BUF_SIZE as u32
        } else {
            (needed % 0x1_0000_0000) as u32
        };
        DMIoctl { inner: DmIoctlHeader { data_size, ..self.inner } }
    }
}

/// The size of a message with `size` bytes of data.
pub open spec fn message_size(size: int) -> int {
    if DM_IOCTL_SIZE + size < DEF_BUF_SIZE {
        DEF_BUF_SIZE as int
    } else {
        DM_IOCTL_SIZE + size
    }
}

/// What the size field of a message with `size` bytes of data holds.
pub open spec fn size_field(size: int) -> u32 {
    (message_size(size) % 0x1_0000_0000) as u32
}

/// A target of a mapped device: a stretch of sectors and what they are mapped to.
#[derive(Debug)]
pub struct DMTargetInfo {
    pub sector_start: u64,
    pub sector_size: u64,
    pub target_type: String,
    pub params: String,
}

impl DMTargetInfo {
    pub fn new(sector_start: u64, sector_size: u64, target_type: String, params: String) -> (r: Self)
        ensures
            r == (DMTargetInfo { sector_start, sector_size, target_type, params }),
    {
        DMTargetInfo { sector_start, sector_size, target_type, params }
    }
}

impl Default for DMTargetInfo {
    fn default() -> (r: Self)
        ensures
            r.sector_start == 0,
            r.sector_size == 0,
            r.target_type@.len() == 0,
            r.params@.len() == 0,
    {
        DMTargetInfo {
            sector_start: 0,
            sector_size: 0,
            target_type: String::new(),
            params: String::new(),
        }
    }
}

impl Clone for DMTargetInfo {
    fn clone(&self) -> (r: Self)
        ensures
            r == *self,
    {
        DMTargetInfo {
            sector_start: self.sector_start,
            sector_size: self.sector_size,
            target_type: self.target_type.clone(),
            params: self.params.clone(),
        }
    }
}

/// Why data for a message could not be made.
#[derive(Debug, Clone, Copy, PartialEq, Eq, Structural)]
pub enum DmDataError {
    /// A target with its parameters is too long for a 32-bit offset.
    NextOverflow,
    /// There are too many targets.
    CountOverflow,
    /// The data is too long for a 32-bit size.
    SizeOverflow,
    /// There is no memory for more.
    Reserve,
}

/// The data behind the head of a message.
#[derive(Debug)]
pub struct DMData {
    pub data: Vec<u8>,
    target_count: u32,
}

pub open spec fn zeros(n: nat) -> Seq<u8> {
    Seq::new(n, |i: int| 0u8)
}

/// How far the next target lies behind the start of this one.
pub open spec fn target_length(t: DMTargetInfo) -> int {
    (40 + encode_utf8(t.params@).len() + 1) as int
}

/// A target in a message: its numbers, its type padded with zeros, its parameters and a
/// zero.
pub open spec fn target_bytes(order: ByteOrder, t: DMTargetInfo) -> Seq<u8> {
    let kind = encode_utf8(t.target_type@);
    bytes_of(order, t.sector_start as nat, 8) + bytes_of(order, t.sector_size as nat, 8) + bytes_of(
        order,
        0,
        4,
    ) + bytes_of(order, target_length(t) as nat, 4) + kind + zeros((16 - kind.len()) as nat)
        + encode_utf8(t.params@) + seq![0u8]
}

pub open spec fn targets_bytes(order: ByteOrder, targets: Seq<DMTargetInfo>) -> Seq<u8>
    decreases targets.len(),
{
    if targets.len() == 0 {
        Seq::empty()
    } else {
        targets_bytes(order, targets.drop_last()) + target_bytes(order, targets.last())
    }
}

/// Whether every target has a 32-bit length.
pub open spec fn lengths_fit(targets: Seq<DMTargetInfo>) -> bool {
    forall|i: int| 0 <= i < targets.len() ==> target_length(#[trigger] targets[i]) <= u32::MAX
}

fn push_bytes(out: &mut Vec<u8>, bytes: &[u8])
    ensures
        final(out)@ == old(out)@ + bytes@,
{
    let ghost start = out@;
    let mut i: usize = 0;
    assert(start + bytes@.take(0) =~= start);
    while i < bytes.len()
        invariant
            i <= bytes@.len(),
            out@ == start + bytes@.take(i as int),
        decreases bytes.len() - i,
    {
        out.push(bytes[i]);
        assert(bytes@.take(i + 1) =~= bytes@.take(i as int).push(bytes@[i as int]));
        assert(out@ =~= start + bytes@.take(i + 1));
        i += 1;
    }
    assert(bytes@.take(i as int) =~= bytes@);
}

fn push_zeros(out: &mut Vec<u8>, n: usize)
    ensures
        final(out)@ == old(out)@ + zeros(n as nat),
{
    let ghost start = out@;
    let mut i: usize = 0;
    assert(start + zeros(0) =~= start);
    while i < n
        invariant
            i <= n,
            out@ == start + zeros(i as nat),
        decreases n - i,
    {
        out.push(0);
        i += 1;
        assert(out@ =~= start + zeros(i as nat));
    }
}

impl DMData {
    pub closed spec fn count_spec(&self) -> u32 {
        self.target_count
    }

    pub closed spec fn data_spec(&self) -> Seq<u8> {
        self.data@
    }

    /// Room for an answer, and nothing to say.
    pub fn empty_data() -> (r: Self)
        ensures
            r.data_spec() == zeros(DEF_BUF_SIZE as nat),
            r.count_spec() == 0,
    {
        let mut data: Vec<u8> = Vec::new();
        push_zeros(&mut data, DEF_BUF_SIZE);
        assert(data@ =~= zeros(DEF_BUF_SIZE as nat));
        DMData { data, target_count: 0 }
    }

    /// The targets of a device, one after the other. A type has fewer than 16 bytes.
    pub fn from_target_info(targets: &Vec<DMTargetInfo>, order: ByteOrder) -> (r: Result<
        Self,
        DmDataError,
    >)
        requires
            forall|i: int|
                0 <= i < targets@.len() ==> encode_utf8((#[trigger] targets@[i]).target_type@).len()
                    < 16,
        ensures
            match r {
                Ok(d) => {
                    &&& lengths_fit(targets@)
                    &&& targets@.len() <= u32::MAX
                    &&& d.data_spec() == targets_bytes(order, targets@)
                    &&& d.count_spec() == targets@.len()
                },
                Err(DmDataError::NextOverflow) => !lengths_fit(targets@),
                Err(DmDataError::CountOverflow) => lengths_fit(targets@) && targets@.len()
                    > u32::MAX,
                Err(_) => false,
            },
    {
        let mut data: Vec<u8> = Vec::new();
        let mut i: usize = 0;
        assert(targets@.take(0) =~= Seq::empty());
        while i < targets.len()
            invariant
                i <= targets@.len(),
                forall|j: int|
                    0 <= j < targets@.len() ==> encode_utf8(
                        (#[trigger] targets@[j]).target_type@,
                    ).len() < 16,
                forall|j: int|
                    0 <= j < i ==> target_length(#[trigger] targets@[j]) <= u32::MAX,
                data@ == targets_bytes(order, targets@.take(i as int)),
            decreases targets.len() - i,
        {
            let target = &targets[i];
            let kind = target.target_type.as_str().as_bytes();
            let params = target.params.as_str().as_bytes();
            assert(targets@.take(i + 1).drop_last() =~= targets@.take(i as int));
            assert(targets@.take(i + 1).last() == targets@[i as int]);
            assert(kind@.len() < 16) by {
                assert(encode_utf8(targets@[i as int].target_type@).len() < 16);
            }
            if params.len() > 0xffff_ffff - 41 {
                assert(target_length(targets@[i as int]) > u32::MAX);
                return Err(DmDataError::NextOverflow);
            }
            let next: u64 = 40 + params.len() as u64 + 1;
            let ghost start = data@;
            push_number(&mut data, order, target.sector_start, 8);
            push_number(&mut data, order, target.sector_size, 8);
            push_number(&mut data, order, 0, 4);
            push_number(&mut data, order, next, 4);
            push_bytes(&mut data, kind);
            push_zeros(&mut data, 16 - kind.len());
            push_bytes(&mut data, params);
            data.push(0);
            assert(data@ =~= start + target_bytes(order, targets@[i as int]));
            i += 1;
        }
        assert(targets@.take(i as int) =~= targets@);
        if targets.len() > 0xffff_ffff {
            return Err(DmDataError::CountOverflow);
        }
        Ok(DMData { data, target_count: targets.len() as u32 })
    }

    pub fn as_raw_slice(&self) -> (r: &[u8])
        ensures
            r@ == self.data_spec(),
    {
        self.data.as_slice()
    }

    pub fn data_size(&self) -> (r: Result<u32, DmDataError>)
        ensures
            r == if self.data_spec().len() <= u32::MAX {
                Ok::<u32, DmDataError>(self.data_spec().len() as u32)
            } else {
                Err(DmDataError::SizeOverflow)
            },
    {
        if self.data.len() > 0xffff_ffff {
            Err(DmDataError::SizeOverflow)
        } else {
            Ok(self.data.len() as u32)
        }
    }

    pub fn target_count(&self) -> (r: u32)
        ensures
            r == self.count_spec(),
    {
        self.target_count
    }

    /// Makes the data longer by zeros, where there was memory for them.
    pub fn grow(&mut self, additional: usize, reserved: bool) -> (r: Result<(), DmDataError>)
        ensures
            final(self).count_spec() == old(self).count_spec(),
            r == if reserved {
                Ok::<(), DmDataError>(())
            } else {
                Err(DmDataError::Reserve)
            },
            final(self).data_spec() == if reserved {
                old(self).data_spec() + zeros(additional as nat)
            } else {
                old(self).data_spec()
            },
    {
        if !reserved {
            return Err(DmDataError::Reserve);
        }
        push_zeros(&mut self.data, additional);
        Ok(())
    }

    /// Asks for the memory that data that many times as long needs. Whether there is any
    /// is for the system to say, but what no memory can hold is refused, and nothing is
    /// asked for where nothing is needed.
    fn reserve(&mut self, multiplier: usize) -> (r: bool)
        requires
            multiplier >= 1,
        ensures
            final(self).count_spec() == old(self).count_spec(),
            final(self).data_spec() == old(self).data_spec(),
            old(self).data_spec().len() * (multiplier - 1) > usize::MAX ==> !r,
            old(self).data_spec().len() == 0 ==> r,
    {
        match self.data.len().checked_mul(multiplier - 1) {
            Some(additional) => additional == 0 || self.data.try_reserve(additional).is_ok(),
            None => false,
        }
    }

    /// Makes the data that many times as long, with zeros. A multiplier of one or zero
    /// changes nothing; neither does a lack of memory.
    pub fn resize_mul(&mut self, multiplier: usize) -> (r: Result<(), DmDataError>)
        ensures
            final(self).count_spec() == old(self).count_spec(),
            multiplier <= 1 ==> r == Ok::<(), DmDataError>(()) && final(self).data_spec() == old(
                self,
            ).data_spec(),
            r is Err ==> final(self).data_spec() == old(self).data_spec() && r->Err_0
                == DmDataError::Reserve,
            multiplier > 1 && r is Ok ==> final(self).data_spec() == old(self).data_spec() + zeros(
                (old(self).data_spec().len() * (multiplier - 1)) as nat,
            ),
            multiplier > 1 && old(self).data_spec().len() * (multiplier - 1) > usize::MAX ==> r
                is Err,
            old(self).data_spec().len() == 0 ==> r is Ok,
    {
        if multiplier <= 1 {
            return Ok(());
        }
        if !self.reserve(multiplier) {
            return Err(DmDataError::Reserve);
        }
        let additional: usize = self.data.len() * (multiplier - 1);
        self.grow(additional, true)
    }
}

/// A head is the one for a message with that name, id, flags, and data.
pub open spec fn header_for(
    name: Option<Seq<char>>,
    uuid: Option<Seq<char>>,
    flags: u32,
    count: u32,
    size: u32,
    h: DmIoctlHeader,
) -> bool {
    &&& h.version@ == DM_VERSION@
    &&& h.data_start == DM_IOCTL_SIZE
    &&& h.data_size == size_field(size as int)
    &&& h.target_count == count
    &&& h.open_count == 0
    &&& h.flags == flags
    &&& h.event_nr == 0
    &&& h.padding == 0
    &&& h.dev == 0
    &&& match name {
        Some(n) => text_set(zeros(128), encode_utf8(n), h.name@),
        None => h.name@ == zeros(128),
    }
    &&& match uuid {
        Some(u) => text_set(zeros(129), encode_utf8(u), h.uuid@),
        None => h.uuid@ == zeros(129),
    }
}

pub open spec fn opt_text(s: Option<&str>) -> Option<Seq<char>> {
    match s {
        Some(t) => Some(t@),
        None => None,
    }
}

/// The head of a message with the given data, about the device of that name or id.
pub fn gen_io_hdr(
    device_name: Option<&str>,
    device_uuid: Option<&str>,
    flag: u32,
    dm_data: &DMData,
) -> (r: Result<DMIoctl, DmDataError>)
    requires
        device_name matches Some(n) ==> encode_utf8(n@).len() < 128,
        device_uuid matches Some(u) ==> encode_utf8(u@).len() < 129,
    ensures
        match r {
            Ok(h) => {
                &&& dm_data.data_spec().len() <= u32::MAX
                &&& header_for(
                    opt_text(device_name),
                    opt_text(device_uuid),
                    flag,
                    dm_data.count_spec(),
                    dm_data.data_spec().len() as u32,
                    h.inner,
                )
            },
            Err(e) => e == DmDataError::SizeOverflow && dm_data.data_spec().len() > u32::MAX,
        },
{
    let size: u32 = match dm_data.data_size() {
        Ok(size) => size,
        Err(e) => {
            return Err(e);
        },
    };
    let mut io_hdr = DMIoctl::new().set_flags(flag).set_target_count(
        dm_data.target_count(),
    ).set_data_size(size);
    assert(io_hdr.inner.name@ =~= zeros(128));
    assert(io_hdr.inner.uuid@ =~= zeros(129));
    if let Some(name) = device_name {
        io_hdr = io_hdr.set_name(name);
    }
    assert(io_hdr.inner.uuid@ =~= zeros(129));
    if let Some(uuid) = device_uuid {
        io_hdr = io_hdr.set_uuid(uuid);
    }
    Ok(io_hdr)
}

/// The bytes of a message's head.
pub open spec fn header_bytes(order: ByteOrder, h: DmIoctlHeader) -> Seq<u8> {
    bytes_of(order, h.version@[0] as nat, 4) + bytes_of(order, h.version@[1] as nat, 4) + bytes_of(
        order,
        h.version@[2] as nat,
        4,
    ) + bytes_of(order, h.data_size as nat, 4) + bytes_of(order, h.data_start as nat, 4) + bytes_of(
        order,
        h.target_count as nat,
        4,
    ) + bytes_of(order, h.open_count as nat, 4) + bytes_of(order, h.flags as nat, 4) + bytes_of(
        order,
        h.event_nr as nat,
        4,
    ) + bytes_of(order, h.padding as nat, 4) + bytes_of(order, h.dev as nat, 8) + h.name@ + h.uuid@
        + zeros(7)
}

/// A message: its head and its data in one buffer.
#[derive(Debug)]
pub struct DmIoctlPayload {
    inner: Vec<u8>,
}

/// A buffer as long as its message says, or as the message is.
pub open spec fn padded(message: Seq<u8>, size: nat) -> Seq<u8> {
    if message.len() < size {
        message + zeros((size - message.len()) as nat)
    } else {
        message
    }
}

fn header_vec(h: &DmIoctlHeader, order: ByteOrder) -> (r: Vec<u8>)
    ensures
        r@ == header_bytes(order, *h),
{
    let mut out: Vec<u8> = Vec::new();
    push_number(&mut out, order, h.version[0] as u64, 4);
    push_number(&mut out, order, h.version[1] as u64, 4);
    push_number(&mut out, order, h.version[2] as u64, 4);
    push_number(&mut out, order, h.data_size as u64, 4);
    push_number(&mut out, order, h.data_start as u64, 4);
    push_number(&mut out, order, h.target_count as u64, 4);
    push_number(&mut out, order, h.open_count as u64, 4);
    push_number(&mut out, order, h.flags as u64, 4);
    push_number(&mut out, order, h.event_nr as u64, 4);
    push_number(&mut out, order, h.padding as u64, 4);
    push_number(&mut out, order, h.dev, 8);
    push_bytes(&mut out, h.name.as_slice());
    push_bytes(&mut out, h.uuid.as_slice());
    push_zeros(&mut out, 7);
    assert(out@ =~= header_bytes(order, *h));
    out
}

proof fn lemma_header_len(order: ByteOrder, h: DmIoctlHeader)
    ensures
        header_bytes(order, h).len() == DM_IOCTL_SIZE,
{
    lemma_le_len(h.version@[0] as nat, 4);
    lemma_le_len(h.version@[1] as nat, 4);
    lemma_le_len(h.version@[2] as nat, 4);
    lemma_le_len(h.data_size as nat, 4);
    lemma_le_len(h.data_start as nat, 4);
    lemma_le_len(h.target_count as nat, 4);
    lemma_le_len(h.open_count as nat, 4);
    lemma_le_len(h.flags as nat, 4);
    lemma_le_len(h.event_nr as nat, 4);
    lemma_le_len(h.padding as nat, 4);
    lemma_le_len(h.dev as nat, 8);
}

/// The 32-bit number at a place of a buffer.
pub open spec fn word_at(order: ByteOrder, buf: Seq<u8>, at: int) -> nat {
    number_of(order, buf.subrange(at, at + 4))
}

fn read_word(buf: &Vec<u8>, at: usize, order: ByteOrder) -> (r: u32)
    requires
        at + 4 <= buf@.len(),
    ensures
        r == word_at(order, buf@, at as int),
{
    let x: u64 = read_number(buf, at, 4, order);
    proof {
        let field = buf@.subrange(at as int, at + 4);
        lemma_from_le_bound(field);
        lemma_from_le_bound(field.reverse());
        lemma_spans();
    }
    x as u32
}

/// A head is what the bytes of a buffer say.
pub open spec fn header_reads(order: ByteOrder, buf: Seq<u8>, h: DmIoctlHeader) -> bool {
    &&& h.version@[0] == word_at(order, buf, 0)
    &&& h.version@[1] == word_at(order, buf, 4)
    &&& h.version@[2] == word_at(order, buf, 8)
    &&& h.data_size == word_at(order, buf, 12)
    &&& h.data_start == word_at(order, buf, 16)
    &&& h.target_count == word_at(order, buf, 20)
    &&& h.open_count == word_at(order, buf, 24)
    &&& h.flags == word_at(order, buf, 28)
    &&& h.event_nr == word_at(order, buf, 32)
    &&& h.padding == word_at(order, buf, 36)
    &&& h.dev == number_of(order, buf.subrange(40, 48))
    &&& h.name@ == buf.subrange(48, 176)
    &&& h.uuid@ == buf.subrange(176, 305)
}

impl DmIoctlPayload {
    pub closed spec fn bytes_spec(&self) -> Seq<u8> {
        self.inner@
    }

    /// The buffer for a message.
    pub fn new(io_hdr: &DmIoctlHeader, data: &DMData, order: ByteOrder) -> (r: Self)
        ensures
            r.bytes_spec() == padded(
                header_bytes(order, *io_hdr) + data.data_spec(),
                io_hdr.data_size as nat,
            ),
            r.bytes_spec().len() >= DM_IOCTL_SIZE,
            r.bytes_spec().subrange(0, DM_IOCTL_SIZE as int) == header_bytes(order, *io_hdr),
            r.bytes_spec().subrange(0, 4) == bytes_of(order, io_hdr.version@[0] as nat, 4),
            r.bytes_spec().subrange(4, 8) == bytes_of(order, io_hdr.version@[1] as nat, 4),
            r.bytes_spec().subrange(8, 12) == bytes_of(order, io_hdr.version@[2] as nat, 4),
            r.bytes_spec().subrange(12, 16) == bytes_of(order, io_hdr.data_size as nat, 4),
            r.bytes_spec().subrange(16, 20) == bytes_of(order, io_hdr.data_start as nat, 4),
            r.bytes_spec().subrange(20, 24) == bytes_of(order, io_hdr.target_count as nat, 4),
            r.bytes_spec().subrange(24, 28) == bytes_of(order, io_hdr.open_count as nat, 4),
            r.bytes_spec().subrange(28, 32) == bytes_of(order, io_hdr.flags as nat, 4),
            r.bytes_spec().subrange(32, 36) == bytes_of(order, io_hdr.event_nr as nat, 4),
            r.bytes_spec().subrange(36, 40) == bytes_of(order, io_hdr.padding as nat, 4),
            r.bytes_spec().subrange(40, 48) == bytes_of(order, io_hdr.dev as nat, 8),
            r.bytes_spec().subrange(48, 176) == io_hdr.name@,
            r.bytes_spec().subrange(176, 305) == io_hdr.uuid@,
            r.bytes_spec().len() >= 312 + data.data_spec().len(),
            r.bytes_spec().subrange(312, (312 + data.data_spec().len()) as int) == data.data_spec(),
            r.bytes_spec().len() >= io_hdr.data_size,
    {
        let mut buf = header_vec(io_hdr, order);
        proof {
            lemma_header_len(order, *io_hdr);
        }
        push_bytes(&mut buf, data.as_raw_slice());
        let size: usize = io_hdr.data_size as usize;
        if buf.len() < size {
            let n: usize = size - buf.len();
            push_zeros(&mut buf, n);
        }
        assert(buf@.subrange(0, DM_IOCTL_SIZE as int) =~= header_bytes(order, *io_hdr));
        assert(buf@.subrange(312, (312 + data.data_spec().len()) as int) =~= data.data_spec());
        proof {
            law_header_layout(order, *io_hdr, buf@.skip(312));
            assert(header_bytes(order, *io_hdr) + buf@.skip(312) =~= buf@);
        }
        DmIoctlPayload { inner: buf }
    }

    /// The answer to a message, as it was found in the buffer.
    pub fn from_bytes(inner: Vec<u8>) -> (r: Self)
        ensures
            r.bytes_spec() == inner@,
    {
        DmIoctlPayload { inner }
    }

    pub fn into_bytes(self) -> (r: Vec<u8>)
        ensures
            r@ == self.bytes_spec(),
    {
        self.inner
    }

    /// The head of the message. The buffer must hold a whole one.
    pub fn as_dm_ioctl(&self, order: ByteOrder) -> (r: DmIoctlHeader)
        requires
            self.bytes_spec().len() >= DM_IOCTL_SIZE,
        ensures
            header_reads(order, self.bytes_spec(), r),
            r.flags == number_of(order, self.bytes_spec().subrange(28, 32)),
            r.dev == number_of(order, self.bytes_spec().subrange(40, 48)),
            r.name@ == self.bytes_spec().subrange(48, 176),
            r.uuid@ == self.bytes_spec().subrange(176, 305),
    {
        let mut name: [u8; 128] = [0u8; 128];
        let mut i: usize = 0;
        while i < 128
            invariant
                i <= 128,
                self.inner@.len() >= DM_IOCTL_SIZE,
                forall|j: int| 0 <= j < i ==> name@[j] == self.inner@[48 + j],
            decreases 128 - i,
        {
            name[i] = self.inner[48 + i];
            i += 1;
        }
        let mut uuid: [u8; 129] = [0u8; 129];
        let mut k: usize = 0;
        while k < 129
            invariant
                k <= 129,
                self.inner@.len() >= DM_IOCTL_SIZE,
                forall|j: int| 0 <= j < k ==> uuid@[j] == self.inner@[176 + j],
            decreases 129 - k,
        {
            uuid[k] = self.inner[176 + k];
            k += 1;
        }
        assert(name@ =~= self.inner@.subrange(48, 176));
        assert(uuid@ =~= self.inner@.subrange(176, 305));
        DmIoctlHeader {
            version: [
                read_word(&self.inner, 0, order),
                read_word(&self.inner, 4, order),
                read_word(&self.inner, 8, order),
            ],
            data_size: read_word(&self.inner, 12, order),
            data_start: read_word(&self.inner, 16, order),
            target_count: read_word(&self.inner, 20, order),
            open_count: read_word(&self.inner, 24, order),
            flags: read_word(&self.inner, 28, order),
            event_nr: read_word(&self.inner, 32, order),
            padding: read_word(&self.inner, 36, order),
            dev: read_number(&self.inner, 40, 8, order),
            name,
            uuid,
        }
    }

    /// Whether the head tells of data that the buffer holds.
    pub open spec fn data_fits(&self, order: ByteOrder) -> bool {
        &&& self.bytes_spec().len() >= DM_IOCTL_SIZE
        &&& word_at(order, self.bytes_spec(), 16) <= word_at(order, self.bytes_spec(), 12)
        &&& word_at(order, self.bytes_spec(), 12) <= self.bytes_spec().len()
    }

    pub fn has_data(&self, order: ByteOrder) -> (r: bool)
        ensures
            r == self.data_fits(order),
    {
        if self.inner.len() < DM_IOCTL_SIZE {
            return false;
        }
        let start: u32 = read_word(&self.inner, 16, order);
        let end: u32 = read_word(&self.inner, 12, order);
        start <= end && end as usize <= self.inner.len()
    }

    /// The data of the message.
    pub fn as_data_slice(&self, order: ByteOrder) -> (r: Vec<u8>)
        requires
            self.data_fits(order),
        ensures
            r@ == self.bytes_spec().subrange(
                word_at(order, self.bytes_spec(), 16) as int,
                word_at(order, self.bytes_spec(), 12) as int,
            ),
    {
        let start: usize = read_word(&self.inner, 16, order) as usize;
        let end: usize = read_word(&self.inner, 12, order) as usize;
        let mut out: Vec<u8> = Vec::new();
        let mut i: usize = start;
        while i < end
            invariant
                start <= i <= end <= self.inner@.len(),
                out@ == self.inner@.subrange(start as int, i as int),
            decreases end - i,
        {
            out.push(self.inner[i]);
            assert(self.inner@.subrange(start as int, i + 1) =~= self.inner@.subrange(
                start as int,
                i as int,
            ).push(self.inner@[i as int]));
            i += 1;
        }
        out
    }
}

proof fn lemma_word(order: ByteOrder, x: u32)
    ensures
        bytes_of(order, x as nat, 4).len() == 4,
        number_of(order, bytes_of(order, x as nat, 4)) == x,
{
    lemma_spans();
    law_bytes_read_back(order, x as nat, 4);
}

/// The head of a message is read back from the buffer as it was put there.
pub proof fn law_header_read_back(order: ByteOrder, h: DmIoctlHeader, rest: Seq<u8>)
    ensures
        header_reads(order, header_bytes(order, h) + rest, h),
{
    let b = header_bytes(order, h) + rest;
    lemma_header_len(order, h);
    lemma_word(order, h.version@[0]);
    lemma_word(order, h.version@[1]);
    lemma_word(order, h.version@[2]);
    lemma_word(order, h.data_size);
    lemma_word(order, h.data_start);
    lemma_word(order, h.target_count);
    lemma_word(order, h.open_count);
    lemma_word(order, h.flags);
    lemma_word(order, h.event_nr);
    lemma_word(order, h.padding);
    lemma_spans();
    law_bytes_read_back(order, h.dev as nat, 8);
    assert(b.subrange(0, 4) =~= bytes_of(order, h.version@[0] as nat, 4));
    assert(b.subrange(4, 8) =~= bytes_of(order, h.version@[1] as nat, 4));
    assert(b.subrange(8, 12) =~= bytes_of(order, h.version@[2] as nat, 4));
    assert(b.subrange(12, 16) =~= bytes_of(order, h.data_size as nat, 4));
    assert(b.subrange(16, 20) =~= bytes_of(order, h.data_start as nat, 4));
    assert(b.subrange(20, 24) =~= bytes_of(order, h.target_count as nat, 4));
    assert(b.subrange(24, 28) =~= bytes_of(order, h.open_count as nat, 4));
    assert(b.subrange(28, 32) =~= bytes_of(order, h.flags as nat, 4));
    assert(b.subrange(32, 36) =~= bytes_of(order, h.event_nr as nat, 4));
    assert(b.subrange(36, 40) =~= bytes_of(order, h.padding as nat, 4));
    assert(b.subrange(40, 48) =~= bytes_of(order, h.dev as nat, 8));
    assert(b.subrange(48, 176) =~= h.name@);
    assert(b.subrange(176, 305) =~= h.uuid@);
}

/// A text up to its first zero.
pub open spec fn until_zero(bytes: Seq<u8>) -> Seq<u8>
    decreases bytes.len(),
{
    if bytes.len() == 0 || bytes[0] == 0 {
        Seq::empty()
    } else {
        seq![bytes[0]] + until_zero(bytes.drop_first())
    }
}

/// A name of fewer bytes than the field, and without a zero, is read back from it.
pub proof fn law_name_read_back(before: Seq<u8>, bytes: Seq<u8>, after: Seq<u8>)
    requires
        text_set(before, bytes, after),
        bytes.len() < before.len(),
        forall|i: int| 0 <= i < bytes.len() ==> bytes[i] != 0,
    ensures
        until_zero(after) == bytes,
    decreases bytes.len(),
{
    if bytes.len() > 0 {
        let b = before.drop_first();
        let t = bytes.drop_first();
        let a = after.drop_first();
        assert(after[0] == bytes[0]);
        assert forall|i: int| 0 <= i < t.len() implies a[i] == t[i] by {
            assert(after[i + 1] == bytes[i + 1]);
        }
        assert forall|i: int| t.len() < i < b.len() implies a[i] == b[i] by {
            assert(after[i + 1] == before[i + 1]);
        }
        assert(a[t.len() as int] == after[bytes.len() as int]);
        law_name_read_back(b, t, a);
        assert(seq![bytes[0]] + t =~= bytes);
    } else {
        assert(after[0] == 0);
    }
}

/// What to do after a message was answered.
#[derive(Debug, Clone, Copy, PartialEq, Eq, Structural)]
pub enum SendStep {
    Done,
    /// The answer did not fit: send again with a larger buffer.
    SendAgain,
}

/// By how much the data grows the next time.
pub open spec fn next_multiplier(mul: usize) -> int {
    if 2 * mul > usize::MAX {
        usize::MAX as int
    } else {
        2 * mul
    }
}

/// The length of data that grows by a multiplier.
pub open spec fn grown_len(len: nat, mul: int) -> int {
    if mul <= 1 {
        len as int
    } else {
        len * mul
    }
}

/// The length of the data and the multiplier after `n` answers that did not fit.
pub open spec fn len_after(len: nat, mul: usize, n: nat) -> (nat, usize)
    decreases n,
{
    if n == 0 {
        (len, mul)
    } else {
        let before = len_after(len, mul, (n - 1) as nat);
        let next = next_multiplier(before.1);
        (grown_len(before.0, next) as nat, next as usize)
    }
}

/// A message that has data is not sent forever: its data at least doubles with every
/// answer that does not fit, until its size is too large for a message.
pub proof fn law_sending_ends(len: nat, mul: usize, n: nat)
    requires
        len >= 1,
        mul >= 1,
    ensures
        len_after(len, mul, n).0 >= pow2(n),
        n >= 32 ==> len_after(len, mul, n).0 > u32::MAX,
{
    lemma2_to64();
    lemma_len_after(len, mul, n);
    if n > 32 {
        lemma_pow2_strictly_increases(32, n);
    }
}

proof fn lemma_len_after(len: nat, mul: usize, n: nat)
    requires
        len >= 1,
        mul >= 1,
    ensures
        len_after(len, mul, n).0 >= pow2(n),
        len_after(len, mul, n).1 >= 1,
    decreases n,
{
    lemma2_to64();
    if n > 0 {
        lemma_len_after(len, mul, (n - 1) as nat);
        let before = len_after(len, mul, (n - 1) as nat);
        let next = next_multiplier(before.1);
        lemma_pow2_unfold(n);
        assert(before.0 * next >= 2 * before.0) by (nonlinear_arith)
            requires
                next >= 2,
                before.0 >= 0,
        ;
    }
}

/// A message that is sent until its answer fits.
#[derive(Debug)]
pub struct SendCommand {
    pub io_hdr: DMIoctl,
    pub dm_data: DMData,
    mul_num: usize,
}

impl SendCommand {
    pub closed spec fn mul_spec(&self) -> usize {
        self.mul_num
    }

    pub closed spec fn hdr_spec(&self) -> DmIoctlHeader {
        self.io_hdr.inner
    }

    pub closed spec fn dm_data_spec(&self) -> DMData {
        self.dm_data
    }

    /// How long the data is the next time.
    pub open spec fn next_len(&self) -> int {
        grown_len(self.dm_data_spec().data_spec().len(), next_multiplier(self.mul_spec()))
    }

    pub fn new(io_hdr: DMIoctl, dm_data: DMData) -> (r: Self)
        ensures
            r.hdr_spec() == io_hdr.inner,
            r.dm_data_spec() == dm_data,
            r.mul_spec() == 1,
    {
        SendCommand { io_hdr, dm_data, mul_num: 1 }
    }

    /// The buffer to send.
    pub fn payload(&self, order: ByteOrder) -> (r: DmIoctlPayload)
        ensures
            r.bytes_spec() == padded(
                header_bytes(order, self.hdr_spec()) + self.dm_data_spec().data_spec(),
                self.hdr_spec().data_size as nat,
            ),
    {
        DmIoctlPayload::new(&self.io_hdr.inner, &self.dm_data, order)
    }

    /// The message to send again: its data is as long as it is the next time, with zeros
    /// behind what it was.
    pub open spec fn is_grown(&self, next: Self) -> bool {
        let data = self.dm_data_spec().data_spec();
        &&& next.mul_spec() == next_multiplier(self.mul_spec())
        &&& next.dm_data_spec().data_spec() == data + zeros((self.next_len() - data.len()) as nat)
        &&& next.dm_data_spec().data_spec().len() == self.next_len()
        &&& next.dm_data_spec().count_spec() == self.dm_data_spec().count_spec()
        &&& next.hdr_spec() == (DmIoctlHeader {
            data_size: size_field(self.next_len()),
            ..self.hdr_spec()
        })
    }

    fn multiplier(&self) -> (r: usize)
        ensures
            r == next_multiplier(self.mul_spec()),
    {
        match self.mul_num.checked_mul(2) {
            Some(m) => m,
            None => usize::MAX,
        }
    }

    /// Whether an answer with these flags is complete. If not, the buffer is made larger,
    /// each time by twice as much as before, where there was memory for it and its size
    /// is not too large for a message.
    pub fn answered_with(self, flags: u32, reserved: bool) -> (r: Result<
        (SendStep, Self),
        DmDataError,
    >)
        ensures
            flags & DM_BUFFER_FULL_FLAG == 0 ==> (r matches Ok(x) && x.0 is Done && x.1 == self),
            flags & DM_BUFFER_FULL_FLAG != 0 ==> match r {
                Ok(x) => {
                    &&& reserved
                    &&& self.next_len() <= u32::MAX
                    &&& x.0 is SendAgain
                    &&& self.is_grown(x.1)
                },
                Err(DmDataError::Reserve) => !reserved,
                Err(DmDataError::SizeOverflow) => reserved && self.next_len() > u32::MAX,
                Err(_) => false,
            },
    {
        if flags & DM_BUFFER_FULL_FLAG == 0 {
            return Ok((SendStep::Done, self));
        }
        if !reserved {
            return Err(DmDataError::Reserve);
        }
        let mul: usize = self.multiplier();
        let SendCommand { io_hdr, mut dm_data, mul_num: _ } = self;
        let len: usize = dm_data.data.len();
        let next_len: usize = if mul <= 1 {
            len
        } else {
            match len.checked_mul(mul) {
                Some(next_len) => next_len,
                None => {
                    return Err(DmDataError::SizeOverflow);
                },
            }
        };
        if next_len > 0xffff_ffff {
            return Err(DmDataError::SizeOverflow);
        }
        assert(mul > 1 ==> len * mul >= len) by (nonlinear_arith)
            requires
                len >= 0,
        ;
        let _ = dm_data.grow(next_len - len, true);
        Ok(
            (
                SendStep::SendAgain,
                SendCommand {
                    io_hdr: io_hdr.set_data_size(next_len as u32),
                    dm_data,
                    mul_num: mul,
                },
            ),
        )
    }

    /// Asks for the memory that a larger buffer needs, and goes on as `answered_with`
    /// does. Whether there is memory is left open; without data none is needed.
    pub fn answered(self, flags: u32) -> (r: Result<(SendStep, Self), DmDataError>)
        ensures
            flags & DM_BUFFER_FULL_FLAG == 0 ==> (r matches Ok(x) && x.0 is Done && x.1 == self),
            flags & DM_BUFFER_FULL_FLAG != 0 ==> match r {
                Ok(x) => {
                    &&& self.next_len() <= u32::MAX
                    &&& x.0 is SendAgain
                    &&& self.is_grown(x.1)
                },
                Err(DmDataError::Reserve) => self.dm_data_spec().data_spec().len() > 0,
                Err(DmDataError::SizeOverflow) => self.next_len() > u32::MAX,
                Err(_) => false,
            },
            flags & DM_BUFFER_FULL_FLAG != 0 && self.next_len() > u32::MAX ==> r is Err,
            self.dm_data_spec().data_spec().len() == 0 ==> r is Ok,
    {
        if flags & DM_BUFFER_FULL_FLAG == 0 {
            return Ok((SendStep::Done, self));
        }
        let mul: usize = self.multiplier();
        let SendCommand { io_hdr, mut dm_data, mul_num } = self;
        let reserved = mul <= 1 || dm_data.reserve(mul);
        assert(dm_data.data_spec().len() == 0 ==> dm_data.data_spec().len() * next_multiplier(mul_num)
            == 0) by (nonlinear_arith);
        SendCommand { io_hdr, dm_data, mul_num }.answered_with(flags, reserved)
    }
}

/// `std::str::from_utf8` succeeds on valid UTF-8 alone, and the text is what the bytes
/// encode.
#[verifier::external_body]
fn utf8_text(bytes: &[u8]) -> (r: Option<String>)
    ensures
        r is Some <==> valid_utf8(bytes@),
        r matches Some(s) ==> encode_utf8(s@) == bytes@,
{
    std::str::from_utf8(bytes).ok().map(|s| s.to_owned())
}

/// The list of devices from the entry at `at` on: each entry has the number of a device,
/// the distance to the next entry (zero in the last), and the device's name with a zero
/// behind it. Nothing where the buffer holds no such list.
pub open spec fn device_list(order: ByteOrder, buf: Seq<u8>, at: int) -> Option<Seq<Seq<u8>>>
    decreases buf.len() - at,
{
    if at >= buf.len() {
        Some(Seq::empty())
    } else if at + 12 >= buf.len() {
        None
    } else {
        let name = until_zero(buf.skip(at + 12));
        let next = word_at(order, buf, at + 8);
        if at + 12 + name.len() >= buf.len() || !valid_utf8(name) {
            None
        } else if next == 0 {
            Some(seq![name])
        } else if at + next > buf.len() {
            None
        } else {
            match device_list(order, buf, at + next) {
                Some(rest) => Some(seq![name] + rest),
                None => None,
            }
        }
    }
}

/// The bytes of each text.
pub open spec fn encoded(texts: Seq<String>) -> Seq<Seq<u8>> {
    Seq::new(texts.len(), |i: int| encode_utf8(texts[i]@))
}

fn read_name(buf: &Vec<u8>, at: usize) -> (r: Vec<u8>)
    requires
        at <= buf@.len(),
    ensures
        r@ == until_zero(buf@.skip(at as int)),
        at + r@.len() <= buf@.len(),
{
    let mut out: Vec<u8> = Vec::new();
    let mut i: usize = at;
    assert(out@ + until_zero(buf@.skip(i as int)) =~= until_zero(buf@.skip(at as int)));
    while i < buf.len() && buf[i] != 0
        invariant
            at <= i <= buf@.len(),
            out@.len() == i - at,
            out@ + until_zero(buf@.skip(i as int)) == until_zero(buf@.skip(at as int)),
        decreases buf.len() - i,
    {
        let ghost before = out@;
        assert(buf@.skip(i as int).drop_first() =~= buf@.skip(i + 1));
        assert(buf@.skip(i as int)[0] == buf@[i as int]);
        out.push(buf[i]);
        assert(out@ + until_zero(buf@.skip(i + 1)) =~= before + until_zero(buf@.skip(i as int)));
        i += 1;
    }
    assert(until_zero(buf@.skip(i as int)) =~= Seq::empty()) by {
        if i < buf@.len() {
            assert(buf@.skip(i as int)[0] == buf@[i as int]);
        }
    }
    assert(out@ =~= until_zero(buf@.skip(at as int)));
    out
}

/// Reads the list of devices, if the buffer holds one.
pub fn parse_device_list(buf: &Vec<u8>, order: ByteOrder) -> (r: Option<Vec<String>>)
    ensures
        r is Some <==> device_list(order, buf@, 0) is Some,
        r matches Some(names) ==> device_list(order, buf@, 0) == Some(encoded(names@)),
{
    let mut out: Vec<String> = Vec::new();
    let mut at: usize = 0;
    let ghost whole = device_list(order, buf@, 0);
    assert(encoded(out@) =~= Seq::empty());
    assert(whole is Some ==> encoded(out@) + device_list(order, buf@, 0)->0 =~= whole->0);
    while at < buf.len()
        invariant
            at <= buf@.len(),
            whole == device_list(order, buf@, 0),
            whole is Some <==> device_list(order, buf@, at as int) is Some,
            whole is Some ==> whole->0 == encoded(out@) + device_list(order, buf@, at as int)->0,
        decreases buf.len() - at,
    {
        let n: usize = buf.len();
        if n - at <= 12 {
            return None;
        }
        let name = read_name(buf, at + 12);
        if at + 12 + name.len() >= n {
            return None;
        }
        let text = match utf8_text(name.as_slice()) {
            Some(text) => text,
            None => {
                return None;
            },
        };
        let next: u32 = read_word(buf, at + 8, order);
        let ghost before = encoded(out@);
        out.push(text);
        assert(encoded(out@) =~= before.push(name@));
        if next == 0 {
            assert(encoded(out@) =~= before + seq![name@]);
            return Some(out);
        }
        if next as usize > n - at {
            return None;
        }
        proof {
            let rest = device_list(order, buf@, at + next);
            if rest is Some {
                assert(before + (seq![name@] + rest->0) =~= encoded(out@) + rest->0);
            }
        }
        at = at + next as usize;
    }
    assert(encoded(out@) + Seq::<Seq<u8>>::empty() =~= encoded(out@));
    Some(out)
}

/// The names of the devices in a list. The buffer must hold one.
pub fn get_list_devices(buf: &Vec<u8>, order: ByteOrder) -> (r: Vec<String>)
    requires
        device_list(order, buf@, 0) is Some,
    ensures
        device_list(order, buf@, 0) == Some(encoded(r@)),
{
    match parse_device_list(buf, order) {
        Some(names) => names,
        None => Vec::new(),
    }
}

/// The head of a message has the layout of the kernel's structure: each of its fields lies at
/// a fixed place, the name before the id, and what follows begins behind 312 bytes.
pub proof fn law_header_layout(order: ByteOrder, h: DmIoctlHeader, rest: Seq<u8>)
    ensures
        ({
            let b = header_bytes(order, h) + rest;
            &&& header_bytes(order, h).len() == 312
            &&& b.subrange(0, 4) == bytes_of(order, h.version@[0] as nat, 4)
            &&& b.subrange(4, 8) == bytes_of(order, h.version@[1] as nat, 4)
            &&& b.subrange(8, 12) == bytes_of(order, h.version@[2] as nat, 4)
            &&& b.subrange(12, 16) == bytes_of(order, h.data_size as nat, 4)
            &&& b.subrange(16, 20) == bytes_of(order, h.data_start as nat, 4)
            &&& b.subrange(20, 24) == bytes_of(order, h.target_count as nat, 4)
            &&& b.subrange(24, 28) == bytes_of(order, h.open_count as nat, 4)
            &&& b.subrange(28, 32) == bytes_of(order, h.flags as nat, 4)
            &&& b.subrange(32, 36) == bytes_of(order, h.event_nr as nat, 4)
            &&& b.subrange(36, 40) == bytes_of(order, h.padding as nat, 4)
            &&& b.subrange(40, 48) == bytes_of(order, h.dev as nat, 8)
            &&& b.subrange(48, 176) == h.name@
            &&& b.subrange(176, 305) == h.uuid@
            &&& b.skip(312) == rest
        }),
{
    let message = header_bytes(order, h) + rest;
    lemma_header_len(order, h);
    lemma_le_len(h.version@[0] as nat, 4);
    lemma_le_len(h.version@[1] as nat, 4);
    lemma_le_len(h.version@[2] as nat, 4);
    lemma_le_len(h.data_size as nat, 4);
    lemma_le_len(h.data_start as nat, 4);
    lemma_le_len(h.target_count as nat, 4);
    lemma_le_len(h.open_count as nat, 4);
    lemma_le_len(h.flags as nat, 4);
    lemma_le_len(h.event_nr as nat, 4);
    lemma_le_len(h.padding as nat, 4);
    lemma_le_len(h.dev as nat, 8);
    assert(message.subrange(0, 4) =~= bytes_of(order, h.version@[0] as nat, 4));
    assert(message.subrange(4, 8) =~= bytes_of(order, h.version@[1] as nat, 4));
    assert(message.subrange(8, 12) =~= bytes_of(order, h.version@[2] as nat, 4));
    assert(message.subrange(12, 16) =~= bytes_of(order, h.data_size as nat, 4));
    assert(message.subrange(16, 20) =~= bytes_of(order, h.data_start as nat, 4));
    assert(message.subrange(20, 24) =~= bytes_of(order, h.target_count as nat, 4));
    assert(message.subrange(24, 28) =~= bytes_of(order, h.open_count as nat, 4));
    assert(message.subrange(28, 32) =~= bytes_of(order, h.flags as nat, 4));
    assert(message.subrange(32, 36) =~= bytes_of(order, h.event_nr as nat, 4));
    assert(message.subrange(36, 40) =~= bytes_of(order, h.padding as nat, 4));
    assert(message.subrange(40, 48) =~= bytes_of(order, h.dev as nat, 8));
    assert(message.subrange(48, 176) =~= h.name@);
    assert(message.subrange(176, 305) =~= h.uuid@);
    assert(message.skip(312) =~= rest);
}

/// An answer is read at the same places.
pub proof fn law_answer_layout(order: ByteOrder, buf: Seq<u8>, h: DmIoctlHeader)
    requires
        header_reads(order, buf, h),
    ensures
        h.version@[0] == number_of(order, buf.subrange(0, 4)),
        h.version@[1] == number_of(order, buf.subrange(4, 8)),
        h.version@[2] == number_of(order, buf.subrange(8, 12)),
        h.data_size == number_of(order, buf.subrange(12, 16)),
        h.data_start == number_of(order, buf.subrange(16, 20)),
        h.target_count == number_of(order, buf.subrange(20, 24)),
        h.open_count == number_of(order, buf.subrange(24, 28)),
        h.flags == number_of(order, buf.subrange(28, 32)),
        h.event_nr == number_of(order, buf.subrange(32, 36)),
        h.padding == number_of(order, buf.subrange(36, 40)),
        h.dev == number_of(order, buf.subrange(40, 48)),
        h.name@ == buf.subrange(48, 176),
        h.uuid@ == buf.subrange(176, 305),
{
}

/// The head that is made for a message asks for version 4.0.0, says that the data begins
/// behind 312 bytes, names the device in its first bytes and has zeros behind the name, and
/// tells of a buffer that holds the data and has 16384 bytes at the least.
pub proof fn law_header_says_what_it_is_made_for(
    name: Option<Seq<char>>,
    uuid: Option<Seq<char>>,
    flags: u32,
    count: u32,
    size: u32,
    h: DmIoctlHeader,
)
    requires
        header_for(name, uuid, flags, count, size, h),
        name matches Some(n) ==> encode_utf8(n).len() < 128,
        uuid matches Some(u) ==> encode_utf8(u).len() < 129,
    ensures
        h.version@ == seq![4u32, 0u32, 0u32],
        h.data_start == 312,
        312 + size < 0x1_0000_0000 ==> h.data_size == if 312 + size < 16384 {
            16384int
        } else {
            312 + size
        },
        h.flags == flags,
        h.target_count == count,
        h.open_count == 0 && h.event_nr == 0 && h.padding == 0 && h.dev == 0,
        ({
            let bytes = match name {
                Some(n) => encode_utf8(n),
                None => Seq::empty(),
            };
            &&& h.name@.take(bytes.len() as int) == bytes
            &&& forall|i: int| bytes.len() <= i < 128 ==> #[trigger] h.name@[i] == 0
        }),
        ({
            let bytes = match uuid {
                Some(u) => encode_utf8(u),
                None => Seq::empty(),
            };
            &&& h.uuid@.take(bytes.len() as int) == bytes
            &&& forall|i: int| bytes.len() <= i < 129 ==> #[trigger] h.uuid@[i] == 0
        }),
{
    assert(DM_VERSION@ =~= seq![4u32, 0u32, 0u32]);
    assert(h.version@ =~= seq![4u32, 0u32, 0u32]);
}

/// A target has the layout of the kernel's structure: first sector, number of sectors, a
/// status of zero, the way to the next target, the type with zeros up to sixteen bytes, and
/// then its parameters with a zero behind them.
pub proof fn law_target_layout(order: ByteOrder, t: DMTargetInfo)
    requires
        encode_utf8(t.target_type@).len() < 16,
    ensures
        ({
            let b = target_bytes(order, t);
            let kind = encode_utf8(t.target_type@);
            let params = encode_utf8(t.params@);
            &&& b.len() == 40 + params.len() + 1
            &&& b.subrange(0, 8) == bytes_of(order, t.sector_start as nat, 8)
            &&& b.subrange(8, 16) == bytes_of(order, t.sector_size as nat, 8)
            &&& b.subrange(16, 20) == bytes_of(order, 0, 4)
            &&& b.subrange(20, 24) == bytes_of(order, b.len(), 4)
            &&& b.subrange(24, (24 + kind.len()) as int) == kind
            &&& forall|i: int| 24 + kind.len() <= i < 40 ==> #[trigger] b[i] == 0
            &&& b.subrange(40, (40 + params.len()) as int) == params
            &&& b.last() == 0
        }),
{
    let b = target_bytes(order, t);
    let kind = encode_utf8(t.target_type@);
    let params = encode_utf8(t.params@);
    lemma_le_len(t.sector_start as nat, 8);
    lemma_le_len(t.sector_size as nat, 8);
    lemma_le_len(0, 4);
    lemma_le_len(target_length(t) as nat, 4);
    assert(b.subrange(0, 8) =~= bytes_of(order, t.sector_start as nat, 8));
    assert(b.subrange(8, 16) =~= bytes_of(order, t.sector_size as nat, 8));
    assert(b.subrange(16, 20) =~= bytes_of(order, 0, 4));
    assert(b.subrange(20, 24) =~= bytes_of(order, target_length(t) as nat, 4));
    assert(b.subrange(24, (24 + kind.len()) as int) =~= kind);
    assert(b.subrange(40, (40 + params.len()) as int) =~= params);
}

/// The targets of a table lie one behind the other, in order, with nothing between.
pub proof fn law_targets_in_order(order: ByteOrder, targets: Seq<DMTargetInfo>, t: DMTargetInfo)
    ensures
        targets_bytes(order, Seq::empty()) == Seq::<u8>::empty(),
        targets_bytes(order, targets.push(t)) == targets_bytes(order, targets) + target_bytes(
            order,
            t,
        ),
{
    assert(targets.push(t).drop_last() =~= targets);
}

/// The size that a message tells of is that of its head and its data, and at least the
/// default buffer.
pub proof fn law_message_size(size: u32)
    requires
        312 + size < 0x1_0000_0000,
    ensures
        size_field(size as int) >= 312 + size,
        size_field(size as int) >= 16384,
        size_field(size as int) == 16384 || size_field(size as int) == 312 + size,
{
}

/// A message that did not fit is sent again as it was but for its size: the data stands at
/// the front, zeros follow, and the next time it grows by twice as much.
pub proof fn law_message_is_sent_again_larger(m: SendCommand, next: SendCommand)
    requires
        m.is_grown(next),
        2 * m.mul_spec() <= usize::MAX,
        m.mul_spec() >= 1,
        m.next_len() <= u32::MAX,
    ensures
        next.mul_spec() == 2 * m.mul_spec(),
        next.dm_data_spec().data_spec().len() == m.dm_data_spec().data_spec().len() * (2
            * m.mul_spec()),
        next.dm_data_spec().data_spec().take(m.dm_data_spec().data_spec().len() as int)
            == m.dm_data_spec().data_spec(),
        forall|i: int|
            m.dm_data_spec().data_spec().len() <= i < next.dm_data_spec().data_spec().len()
                ==> #[trigger] next.dm_data_spec().data_spec()[i] == 0,
        next.dm_data_spec().count_spec() == m.dm_data_spec().count_spec(),
        next.hdr_spec().name == m.hdr_spec().name,
        next.hdr_spec().uuid == m.hdr_spec().uuid,
        next.hdr_spec().flags == m.hdr_spec().flags,
        next.hdr_spec().target_count == m.hdr_spec().target_count,
        next.hdr_spec().data_start == m.hdr_spec().data_start,
        next.hdr_spec().version == m.hdr_spec().version,
        next.hdr_spec().data_size == size_field(next.dm_data_spec().data_spec().len() as int),
{
    let len = m.dm_data_spec().data_spec().len();
    let mul = m.mul_spec();
    assert(len * (2 * mul) >= len) by (nonlinear_arith)
        requires
            len >= 0,
            mul >= 1,
    ;
    assert(next.dm_data_spec().data_spec().take(len as int) =~= m.dm_data_spec().data_spec());
}

/// What a list of devices says of one entry: the name begins twelve bytes behind the start
/// of the entry and ends before a zero; a distance of zero ends the list, and any other
/// leads to the next entry.
pub proof fn law_device_list_entry(order: ByteOrder, buf: Seq<u8>, at: int, name: Seq<u8>)
    requires
        0 <= at,
        at + 12 + name.len() < buf.len(),
        buf.subrange(at + 12, at + 12 + name.len()) == name,
        buf[at + 12 + name.len()] == 0,
        forall|i: int| 0 <= i < name.len() ==> name[i] != 0,
        valid_utf8(name),
        at + number_of(order, buf.subrange(at + 8, at + 12)) <= buf.len(),
    ensures
        number_of(order, buf.subrange(at + 8, at + 12)) == 0 ==> device_list(order, buf, at)
            == Some(seq![name]),
        number_of(order, buf.subrange(at + 8, at + 12)) > 0 ==> (device_list(order, buf, at) is Some
            <==> device_list(
            order,
            buf,
            at + number_of(order, buf.subrange(at + 8, at + 12)),
        ) is Some),
        number_of(order, buf.subrange(at + 8, at + 12)) > 0 && device_list(order, buf, at) is Some
            ==> device_list(order, buf, at)->0 == seq![name] + device_list(
            order,
            buf,
            at + number_of(order, buf.subrange(at + 8, at + 12)),
        )->0,
{
    let field = buf.skip(at + 12);
    assert forall|i: int| 0 <= i < name.len() implies field[i] == name[i] by {
        assert(buf.subrange(at + 12, at + 12 + name.len())[i] == name[i]);
    }
    assert(text_set(field, name, field));
    law_name_read_back(field, name, field);
}

/// The list ends where the buffer does, and holds nothing then.
pub proof fn law_device_list_ends(order: ByteOrder, buf: Seq<u8>, at: int)
    requires
        at >= buf.len(),
    ensures
        device_list(order, buf, at) == Some(Seq::<Seq<u8>>::empty()),
{
}

/// The kernel's form of a device number, by place values: eight bits of the minor number,
/// twelve of the major one, and the rest of the minor one above them.
pub proof fn law_kernel_device_number(major: u32, low: u32, high: u32)
    requires
        major < 0x1000,
        low < 0x100,
        high < 0x1000,
    ensures
        kdev_major((low + 0x100 * major + 0x10_0000 * high) as u64) == major,
        kdev_minor((low + 0x100 * major + 0x10_0000 * high) as u64) == low + 0x100 * high,
        kdev_of(major, (low + 0x100 * high) as u32) == low + 0x100 * major + 0x10_0000 * high,
{
    let (a, l, h) = (major as u64, low as u64, high as u64);
    let k = (l + 0x100 * a + 0x10_0000 * h) as u64;
    let m = (l + 0x100 * h) as u64;
    assert((k & 0xfff00) >> 8 == a && (k & 0xff) | ((k >> 12) & 0xfff00) == m && m & 0xff | (a << 8)
        | ((m & !0xffu64) << 12) == k) by (bit_vector)
        requires
            a < 0x1000,
            l < 0x100,
            h < 0x1000,
            k == l + 0x100 * a + 0x10_0000 * h,
            m == l + 0x100 * h,
    ;
}

} // verus!
