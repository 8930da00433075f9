//! Block devices: reading the storage descriptors that a disk query returns,
//! and turning the probes of the disk slots into device records.
use vstd::prelude::*;
use crate::format::{format_size, size_text};
use crate::text::{chars_of, decimal, push_char, push_decimal, push_str, string_of, trim_chars, trimmed};

verus! {

/// What `String::from_utf8_lossy` makes of a byte sequence.
pub uninterp spec fn lossy_of(b: Seq<u8>) -> Seq<char>;

/// Relies on `String::from_utf8_lossy`: valid UTF-8 is decoded, anything else
/// becomes replacement characters; the result depends on the bytes alone.
#[verifier::external_body]
fn decode_lossy(b: &[u8]) -> (r: String)
    ensures
        r@ == lossy_of(b@),
{
    String::from_utf8_lossy(b).into_owned()
}

/// The name of a storage bus type code, as the disk query reports it.
pub open spec fn bus_name(code: u8) -> Option<Seq<char>> {
    if code == 0x00 { Some("Unknown"@) }
    else if code == 0x01 { Some("SCSI"@) }
    else if code == 0x02 { Some("ATAPI"@) }
    else if code == 0x03 { Some("ATA"@) }
    else if code == 0x04 { Some("1394"@) }
    else if code == 0x05 { Some("SSA"@) }
    else if code == 0x06 { Some("Fibre"@) }
    else if code == 0x07 { Some("USB"@) }
    else if code == 0x08 { Some("RAID"@) }
    else if code == 0x09 { Some("iSCSI"@) }
    else if code == 0x0A { Some("SAS"@) }
    else if code == 0x0B { Some("SATA"@) }
    else if code == 0x0C { Some("SD"@) }
    else if code == 0x0D { Some("MMC"@) }
    else if code == 0x0E { Some("Virtual"@) }
    else if code == 0x0F { Some("FileBacked"@) }
    else if code == 0x10 { Some("Spaces"@) }
    else if code == 0x11 { Some("NVMe"@) }
    else if code == 0x12 { Some("SCM"@) }
    else if code == 0x13 { Some("UFS"@) }
    else if code == 0x14 { Some("NVMe-oF"@) }
    else { None }
}

/// Maps a storage bus type code to its name; unknown codes have none.
pub fn bus_type_to_string(bus_type_enum: u8) -> (r: Option<&'static str>)
    ensures
        r is Some <==> bus_name(bus_type_enum) is Some,
        r matches Some(s) ==> bus_name(bus_type_enum) == Some(s@),
{
    match bus_type_enum {
        0x00 => Some("Unknown"),
        0x01 => Some("SCSI"),
        0x02 => Some("ATAPI"),
        0x03 => Some("ATA"),
        0x04 => Some("1394"),
        0x05 => Some("SSA"),
        0x06 => Some("Fibre"),
        0x07 => Some("USB"),
        0x08 => Some("RAID"),
        0x09 => Some("iSCSI"),
        0x0A => Some("SAS"),
        0x0B => Some("SATA"),
        0x0C => Some("SD"),
        0x0D => Some("MMC"),
        0x0E => Some("Virtual"),
        0x0F => Some("FileBacked"),
        0x10 => Some("Spaces"),
        0x11 => Some("NVMe"),
        0x12 => Some("SCM"),
        0x13 => Some("UFS"),
        0x14 => Some("NVMe-oF"),
        _ => None,
    }
}

/// Index of the first zero byte at or after `i`, or the end.
pub open spec fn zero_at_or_after(b: Seq<u8>, i: int) -> int
    decreases b.len() - i,
{
    if i < 0 || i >= b.len() || b[i] == 0 {
        i
    } else {
        zero_at_or_after(b, i + 1)
    }
}

pub open spec fn fallback_model() -> Seq<char> {
    "Physical Drive"@
}

/// The zero-terminated text at `offset`, decoded and trimmed; the fallback
/// name where there is none.
pub open spec fn text_at(b: Seq<u8>, offset: int) -> Seq<char> {
    if offset == 0 || offset >= b.len() {
        fallback_model()
    } else {
        let end = zero_at_or_after(b, offset);
        if end > offset {
            trimmed(lossy_of(b.subrange(offset, end)))
        } else {
            fallback_model()
        }
    }
}

proof fn lemma_zero_bounds(b: Seq<u8>, i: int)
    requires
        0 <= i <= b.len(),
    ensures
        i <= zero_at_or_after(b, i) <= b.len(),
    decreases b.len() - i,
{
    if i < b.len() {
        lemma_zero_bounds(b, i + 1);
    }
}

/// Reads the zero-terminated ASCII text that starts at `offset` in a query
/// buffer; offset zero, an offset past the end, or no text give
/// `"Physical Drive"`.
pub fn extract_ascii_string(buffer: &[u8], offset: usize) -> (r: String)
    ensures
        r@ == text_at(buffer@, offset as int),
{
    let n = buffer.len();
    if offset == 0 || offset >= n {
        return String::from_str("Physical Drive");
    }
    let mut end: usize = offset;
    proof {
        lemma_zero_bounds(buffer@, offset as int);
    }
    while end < n && buffer[end] != 0
        invariant
            n == buffer@.len(),
            offset <= end <= n,
            zero_at_or_after(buffer@, offset as int) == zero_at_or_after(buffer@, end as int),
        decreases n - end,
    {
        end += 1;
    }
    if end > offset {
        let piece = slice_copy(buffer, offset, end);
        let decoded = decode_lossy(piece.as_slice());
        let cs = chars_of(decoded.as_str());
        string_of(&trim_chars(&cs))
    } else {
        String::from_str("Physical Drive")
    }
}

fn slice_copy(b: &[u8], from: usize, to: usize) -> (r: Vec<u8>)
    requires
        from <= to <= b@.len(),
    ensures
        r@ == b@.subrange(from as int, to as int),
{
    let mut r: Vec<u8> = Vec::new();
    let mut i: usize = from;
    while i < to
        invariant
            from <= i <= to <= b@.len(),
            r@ == b@.subrange(from as int, i as int),
        decreases to - i,
    {
        r.push(b[i]);
        i += 1;
        assert(r@ =~= b@.subrange(from as int, i as int));
    }
    r
}

/// The little-endian 32-bit value at `i`.
pub open spec fn u32_le(b: Seq<u8>, i: int) -> nat {
    (b[i] + 256 * b[i + 1] + 65536 * b[i + 2] + 16777216 * b[i + 3]) as nat
}

pub fn read_u32_le(b: &[u8], i: usize) -> (r: u32)
    requires
        i + 4 <= b@.len(),
    ensures
        r as nat == u32_le(b@, i as int),
{
    (b[i] as u32) + 256 * (b[i + 1] as u32) + 65536 * (b[i + 2] as u32) + 16777216 * (
    b[i + 3] as u32)
}

/// Length of the fixed part of a storage device descriptor that is read.
pub const DESCRIPTOR_MIN: usize = 33;

/// Offset of the product-id offset field in a storage device descriptor.
pub const PRODUCT_ID_FIELD: usize = 16;

/// Offset of the bus type byte in a storage device descriptor.
pub const BUS_TYPE_FIELD: usize = 28;

/// What a storage device descriptor says of a disk.
pub struct DeviceProperties {
    pub model: String,
    pub is_removable: bool,
    pub bus_type: Option<String>,
}

pub open spec fn usb_or_sd(b: Option<Seq<char>>) -> bool {
    b == Some("USB"@) || b == Some("SD"@)
}

/// Reads the storage device descriptor returned for disk `disk_number`
/// (`descriptor` holds exactly the bytes returned). A descriptor shorter than
/// its fixed part gives the fallback model, not removable, no bus. Otherwise
/// the bus comes from its code, the model from the product-id text, and a
/// disk is removable when its bus is USB or SD, or, with an unknown bus code,
/// when it is not disk zero.
pub fn device_properties(descriptor: &[u8], disk_number: u32) -> (r: DeviceProperties)
    ensures
        descriptor@.len() < DESCRIPTOR_MIN ==> {
            &&& r.model@ == fallback_model()
            &&& !r.is_removable
            &&& r.bus_type is None
        },
        descriptor@.len() >= DESCRIPTOR_MIN ==> {
            let bus = bus_name(descriptor@[BUS_TYPE_FIELD as int]);
            let text = text_at(descriptor@, u32_le(descriptor@, PRODUCT_ID_FIELD as int) as int);
            &&& r.bus_type is Some <==> bus is Some
            &&& (r.bus_type matches Some(t) ==> bus == Some(t@))
            &&& r.is_removable == if bus is Some {
                usb_or_sd(bus)
            } else {
                disk_number > 0
            }
            &&& r.model@ == if text.len() == 0 {
                fallback_model()
            } else {
                text
            }
        },
{
    if descriptor.len() < DESCRIPTOR_MIN {
        return DeviceProperties {
            model: String::from_str("Physical Drive"),
            is_removable: false,
            bus_type: None,
        };
    }
    let code = descriptor[BUS_TYPE_FIELD];
    let bus = bus_type_to_string(code);
    let offset = read_u32_le(descriptor, PRODUCT_ID_FIELD);
    let text = extract_ascii_string(descriptor, offset as usize);
    let model = if text.as_str().unicode_len() == 0 {
        String::from_str("Physical Drive")
    } else {
        text
    };
    let is_removable = match bus {
        Some(b) => {
            let usb = vec!['U', 'S', 'B'];
            let sd = vec!['S', 'D'];
            proof {
                reveal_strlit("USB");
                reveal_strlit("SD");
            }
            assert(usb@ =~= "USB"@);
            assert(sd@ =~= "SD"@);
            let bc = chars_of(b);
            crate::text::chars_eq(&bc, &usb) || crate::text::chars_eq(&bc, &sd)
        },
        None => disk_number > 0,
    };
    let bus_type = match bus {
        Some(b) => Some(String::from_str(b)),
        None => None,
    };
    DeviceProperties { model, is_removable, bus_type }
}

} // verus!

verus! {

/// Whether drive letter number `i` (0 for `A`) is set in a logical-drive mask.
pub open spec fn letter_bit(mask: u32, i: u32) -> bool {
    ((mask >> i) & 1u32) == 1u32
}

pub open spec fn letter_char(i: int) -> char {
    (('A' as u8) + i) as char
}

/// The drive letters in a mask, in order, as index numbers.
pub open spec fn letters_upto(mask: u32, n: int) -> Seq<char>
    decreases n,
{
    if n <= 0 {
        seq![]
    } else if letter_bit(mask, (n - 1) as u32) {
        letters_upto(mask, n - 1).push(letter_char(n - 1))
    } else {
        letters_upto(mask, n - 1)
    }
}

/// The drive letters `A`..`Z` present in a logical-drive mask.
pub fn drive_letters_in_mask(mask: u32) -> (r: Vec<char>)
    ensures
        r@ == letters_upto(mask, 26),
{
    let mut r: Vec<char> = Vec::new();
    let mut i: u32 = 0;
    while i < 26
        invariant
            i <= 26,
            r@ == letters_upto(mask, i as int),
        decreases 26 - i,
    {
        if ((mask >> i) & 1u32) == 1u32 {
            r.push((('A' as u8) + (i as u8)) as char);
        }
        i += 1;
    }
    r
}

/// Size of the header of a volume's disk-extent list (a count, padded).
pub const EXTENTS_HEADER: usize = 8;

/// Size of one disk extent (disk number, padding, offset, length).
pub const EXTENT_SIZE: usize = 24;

/// Whether extent `j` lies wholly inside the returned bytes and names `disk`.
pub open spec fn extent_names(b: Seq<u8>, j: int, disk: u32) -> bool {
    EXTENTS_HEADER + EXTENT_SIZE * j + EXTENT_SIZE <= b.len() && u32_le(
        b,
        EXTENTS_HEADER + EXTENT_SIZE * j,
    ) == disk
}

/// Whether a volume's disk-extent list (exactly the bytes returned) names
/// `disk`; extents cut off by the end of the bytes count as absent.
pub open spec fn extents_name(b: Seq<u8>, disk: u32) -> bool {
    b.len() >= 4 && exists|j: int| 0 <= j < u32_le(b, 0) && #[trigger] extent_names(b, j, disk)
}

pub fn extents_contain_disk(extents: &[u8], disk: u32) -> (r: bool)
    ensures
        r == extents_name(extents@, disk),
{
    let n = extents.len();
    if n < 4 {
        return false;
    }
    let count = read_u32_le(extents, 0);
    let mut j: u32 = 0;
    while j < count
        invariant
            n == extents@.len(),
            n >= 4,
            count as nat == u32_le(extents@, 0),
            j <= count,
            forall|k: int| 0 <= k < j ==> !#[trigger] extent_names(extents@, k, disk),
        decreases count - j,
    {
        let at: u64 = 8 + 24 * (j as u64);
        if at + 24 > n as u64 {
            assert forall|k: int| j <= k < count implies !#[trigger] extent_names(extents@, k, disk) by {
                assert(EXTENTS_HEADER + EXTENT_SIZE * k >= at);
            }
            return false;
        }
        if read_u32_le(extents, at as usize) == disk {
            assert(extent_names(extents@, j as int, disk));
            return true;
        }
        j += 1;
    }
    false
}

/// The drive letter of the volume the running system booted from.
pub const BOOT_LETTER: char = 'C';

/// What probing one disk slot found.
pub enum DiskProbe {
    /// The slot could not be opened; `code` is the system error.
    OpenFailed { code: u32 },
    /// It opened, but its size could not be read.
    Unreadable,
    /// A disk of `size` bytes, with its descriptor, the letters of its
    /// volumes, and whether its medium is write-protected.
    Present { size: u64, props: DeviceProperties, letters: Vec<char>, read_only: bool },
}

/// Error codes that mean "no disk in this slot": invalid function, not
/// found, access denied, not ready.
pub open spec fn absent_code(code: u32) -> bool {
    code == 1 || code == 2 || code == 5 || code == 21
}

/// After this many absent slots in a row, no more slots are probed.
pub const MAX_ABSENT_RUN: u32 = 4;

/// Where probing stops: at the slot that completes a run of absent slots,
/// or at the end. `run` counts failed opens since the last slot that opened.
pub open spec fn scan_end_from(p: Seq<DiskProbe>, i: int, run: nat) -> int
    decreases p.len() - i,
{
    if i < 0 || i >= p.len() {
        p.len() as int
    } else {
        match p[i] {
            DiskProbe::OpenFailed { code } => if absent_code(code) && run + 1 >= MAX_ABSENT_RUN {
                i
            } else {
                scan_end_from(p, i + 1, run + 1)
            },
            _ => scan_end_from(p, i + 1, 0),
        }
    }
}

pub open spec fn scan_end(p: Seq<DiskProbe>) -> int {
    scan_end_from(p, 0, 0)
}

/// A slot that yields a device: present, with a non-zero size.
pub open spec fn yields_device(p: DiskProbe) -> bool {
    p matches DiskProbe::Present { size, .. } && size > 0
}

/// The slots below `end` that yield a device, in order.
pub open spec fn listed(p: Seq<DiskProbe>, end: int) -> Seq<int>
    decreases end,
{
    if end <= 0 {
        seq![]
    } else if yields_device(p[end - 1]) {
        listed(p, end - 1).push(end - 1)
    } else {
        listed(p, end - 1)
    }
}

/// The device path of disk slot `n`.
pub open spec fn disk_path(n: nat) -> Seq<char> {
    "\\\\.\\PhysicalDrive"@ + decimal(n)
}

/// `X:, Y:` for the letters `X`, `Y`.
pub open spec fn letter_list(l: Seq<char>) -> Seq<char>
    decreases l.len(),
{
    if l.len() == 0 {
        seq![]
    } else if l.len() == 1 {
        seq![l[0], ':']
    } else {
        letter_list(l.drop_last()) + seq![',', ' ', l.last(), ':']
    }
}

/// The display name of disk slot `n` with volume letters `l`.
pub open spec fn disk_name(n: nat, l: Seq<char>) -> Seq<char> {
    if l.len() == 0 {
        "Disk "@ + decimal(n)
    } else {
        "Disk "@ + decimal(n) + " ("@ + letter_list(l) + ")"@
    }
}

/// A raw block device.
pub struct BlockDevice {
    pub path: String,
    pub name: String,
    pub size: u64,
    pub size_formatted: String,
    pub model: String,
    pub is_removable: bool,
    pub is_system: bool,
    pub bus_type: Option<String>,
    pub is_read_only: bool,
}

/// `d` is the record of disk slot `n`, probed as `p`.
pub open spec fn describes(d: BlockDevice, n: nat, p: DiskProbe) -> bool {
    match p {
        DiskProbe::Present { size, props, letters, read_only } => {
            &&& d.path@ == disk_path(n)
            &&& d.name@ == disk_name(n, letters@)
            &&& d.size == size
            &&& d.size_formatted@ == size_text(size as nat)
            &&& d.model@ == props.model@
            &&& d.is_removable == props.is_removable
            &&& d.is_system == letters@.contains(BOOT_LETTER)
            &&& (d.bus_type is Some <==> props.bus_type is Some)
            &&& (d.bus_type matches Some(b) ==> b@ == props.bus_type->0@)
            &&& d.is_read_only == read_only
        },
        _ => false,
    }
}

} // verus!

verus! {

fn push_letter_list(s: &mut String, l: &Vec<char>)
    ensures
        final(s)@ == old(s)@ + letter_list(l@),
{
    let ghost s0 = s@;
    let mut i: usize = 0;
    while i < l.len()
        invariant
            i <= l@.len(),
            s@ == s0 + letter_list(l@.subrange(0, i as int)),
        decreases l@.len() - i,
    {
        if i > 0 {
            push_char(s, ',');
            push_char(s, ' ');
        }
        push_char(s, l[i]);
        push_char(s, ':');
        proof {
            let t = l@.subrange(0, i + 1);
            assert(t.drop_last() =~= l@.subrange(0, i as int));
            if i == 0 {
                assert(letter_list(l@.subrange(0, 0)) =~= seq![]);
            }
            assert(s@ =~= s0 + letter_list(t));
        }
        i += 1;
    }
    assert(l@.subrange(0, i as int) =~= l@);
}

fn copy_option(o: &Option<String>) -> (r: Option<String>)
    ensures
        r is Some <==> o is Some,
        r matches Some(t) ==> t@ == o->0@,
{
    match o {
        Some(t) => Some(t.clone()),
        None => None,
    }
}

fn has_letter(l: &Vec<char>, c: char) -> (r: bool)
    ensures
        r == l@.contains(c),
{
    let mut i: usize = 0;
    while i < l.len()
        invariant
            i <= l@.len(),
            forall|j: int| 0 <= j < i ==> l@[j] != c,
        decreases l@.len() - i,
    {
        if l[i] == c {
            return true;
        }
        i += 1;
    }
    false
}

/// The record of disk slot `n`, which `probe` found present.
pub fn disk_record(n: u64, probe: &DiskProbe) -> (r: Option<BlockDevice>)
    ensures
        r is Some <==> probe is Present,
        r matches Some(d) ==> describes(d, n as nat, *probe),
{
    match probe {
        DiskProbe::Present { size, props, letters, read_only } => {
            let mut path = String::new();
            push_str(&mut path, "\\\\.\\PhysicalDrive");
            push_decimal(&mut path, n);
            let mut name = String::new();
            push_str(&mut name, "Disk ");
            push_decimal(&mut name, n);
            if letters.len() > 0 {
                push_str(&mut name, " (");
                push_letter_list(&mut name, letters);
                push_str(&mut name, ")");
            }
            Some(
                BlockDevice {
                    path,
                    name,
                    size: *size,
                    size_formatted: format_size(*size),
                    model: props.model.clone(),
                    is_removable: props.is_removable,
                    is_system: has_letter(letters, BOOT_LETTER),
                    bus_type: copy_option(&props.bus_type),
                    is_read_only: *read_only,
                },
            )
        },
        _ => None,
    }
}

/// Whether the probes so far end the scan: the last one completes a run of
/// absent slots, so no further slot is probed.
pub fn scan_stopped(probes: &[DiskProbe]) -> (r: bool)
    ensures
        r == (scan_end(probes@) < probes@.len()),
{
    let n = probes.len();
    let mut i: usize = 0;
    let mut run: u32 = 0;
    while i < n
        invariant
            n == probes@.len(),
            i <= n,
            run <= i,
            run < MAX_ABSENT_RUN,
            scan_end(probes@) == scan_end_from(probes@, i as int, run as nat),
        decreases n - i,
    {
        match &probes[i] {
            DiskProbe::OpenFailed { code } => {
                let absent = *code == 1 || *code == 2 || *code == 5 || *code == 21;
                if absent && run + 1 >= MAX_ABSENT_RUN {
                    return true;
                }
                if run + 1 >= MAX_ABSENT_RUN {
                    run = MAX_ABSENT_RUN - 1;
                    proof {
                        lemma_run_saturates(probes@, i + 1, run as nat);
                    }
                } else {
                    run += 1;
                }
            },
            _ => {
                run = 0;
            },
        }
        i += 1;
    }
    proof {
        assert(scan_end_from(probes@, i as int, run as nat) == probes@.len());
    }
    false
}

proof fn lemma_run_saturates(p: Seq<DiskProbe>, i: int, run: nat)
    requires
        run + 1 >= MAX_ABSENT_RUN,
        0 <= i,
    ensures
        scan_end_from(p, i, run) == scan_end_from(p, i, run + 1),
    decreases p.len() - i,
{
    if i < p.len() {
        match p[i] {
            DiskProbe::OpenFailed { code } => {
                if !absent_code(code) {
                    lemma_run_saturates(p, i + 1, run + 1);
                }
            },
            _ => {},
        }
    }
}

} // verus!

verus! {

proof fn lemma_scan_end_bounds(p: Seq<DiskProbe>, i: int, run: nat)
    requires
        0 <= i <= p.len(),
    ensures
        i <= scan_end_from(p, i, run) <= p.len(),
    decreases p.len() - i,
{
    if i < p.len() {
        match p[i] {
            DiskProbe::OpenFailed { code } => {
                if !(absent_code(code) && run + 1 >= MAX_ABSENT_RUN) {
                    lemma_scan_end_bounds(p, i + 1, run + 1);
                }
            },
            _ => {
                lemma_scan_end_bounds(p, i + 1, 0);
            },
        }
    }
}

/// The device records for the probes of disk slots `0, 1, ...`: one for each
/// slot before the end of the scan that held a disk of non-zero size, in slot
/// order.
pub fn list_devices(probes: &[DiskProbe]) -> (r: Vec<BlockDevice>)
    ensures
        r@.len() == listed(probes@, scan_end(probes@)).len(),
        forall|k: int|
            0 <= k < r@.len() ==> describes(
                #[trigger] r@[k],
                listed(probes@, scan_end(probes@))[k] as nat,
                probes@[listed(probes@, scan_end(probes@))[k]],
            ),
{
    let n = probes.len();
    let ghost end = scan_end(probes@);
    proof {
        lemma_scan_end_bounds(probes@, 0, 0);
    }
    let mut r: Vec<BlockDevice> = Vec::new();
    let mut i: usize = 0;
    let mut run: u32 = 0;
    while i < n
        invariant
            n == probes@.len(),
            0 <= end <= n,
            i <= end,
            end == scan_end_from(probes@, i as int, run as nat),
            run < MAX_ABSENT_RUN,
            r@.len() == listed(probes@, i as int).len(),
            forall|k: int|
                0 <= k < r@.len() ==> describes(
                    #[trigger] r@[k],
                    listed(probes@, i as int)[k] as nat,
                    probes@[listed(probes@, i as int)[k]],
                ),
        ensures
            end == i,
            r@.len() == listed(probes@, i as int).len(),
            forall|k: int|
                0 <= k < r@.len() ==> describes(
                    #[trigger] r@[k],
                    listed(probes@, i as int)[k] as nat,
                    probes@[listed(probes@, i as int)[k]],
                ),
        decreases n - i,
    {
        let probe = &probes[i];
        match probe {
            DiskProbe::OpenFailed { code } => {
                let absent = *code == 1 || *code == 2 || *code == 5 || *code == 21;
                if absent && run + 1 >= MAX_ABSENT_RUN {
                    assert(scan_end_from(probes@, i as int, run as nat) == i);
                    break;
                }
                if run + 1 >= MAX_ABSENT_RUN {
                    run = MAX_ABSENT_RUN - 1;
                    proof {
                        lemma_run_saturates(probes@, i + 1, run as nat);
                    }
                } else {
                    run += 1;
                }
            },
            DiskProbe::Unreadable => {
                run = 0;
            },
            DiskProbe::Present { size, .. } => {
                run = 0;
                if *size > 0 {
                    match disk_record(i as u64, probe) {
                        Some(d) => r.push(d),
                        None => {},
                    }
                }
            },
        }
        i += 1;
        proof {
            lemma_scan_end_bounds(probes@, i as int, run as nat);
        }
    }
    r
}

/// Enumeration is exact: a slot before the end of the scan appears in the
/// list if and only if it held a disk of non-zero size, at most once, in slot
/// order; so N such disks give N records, and with the per-record contract of
/// `list_devices`, K removable ones give K removable records and only a disk
/// holding the boot volume is marked as the system disk.
pub proof fn lemma_listing_exact(p: Seq<DiskProbe>, end: int)
    requires
        0 <= end <= p.len(),
    ensures
        forall|i: int| 0 <= i < end ==> (yields_device(p[i]) <==> listed(p, end).contains(i)),
        forall|k: int| 0 <= k < listed(p, end).len() ==> 0 <= #[trigger] listed(p, end)[k] < end,
        forall|a: int, b: int|
            0 <= a < b < listed(p, end).len() ==> #[trigger] listed(p, end)[a] < #[trigger] listed(
                p,
                end,
            )[b],
    decreases end,
{
    if end > 0 {
        lemma_listing_exact(p, end - 1);
        let l = listed(p, end - 1);
        if yields_device(p[end - 1]) {
            assert(listed(p, end) == l.push(end - 1));
            assert forall|i: int| 0 <= i < end implies (yields_device(p[i]) <==> listed(
                p,
                end,
            ).contains(i)) by {
                if i < end - 1 {
                    if l.contains(i) {
                        let k = choose|k: int| 0 <= k < l.len() && l[k] == i;
                        assert(listed(p, end)[k] == i);
                    }
                    if listed(p, end).contains(i) {
                        let k = choose|k: int| 0 <= k < listed(p, end).len() && listed(p, end)[k] == i;
                        assert(k < l.len());
                        assert(l[k] == i);
                    }
                } else {
                    assert(listed(p, end)[l.len() as int] == i);
                }
            }
        }
    }
}

} // verus!

verus! {

/// The UTF-16 code units of one character.
pub open spec fn utf16_of(c: char) -> Seq<u16> {
    let v = c as u32;
    if v < 0x10000 {
        seq![v as u16]
    } else {
        seq![(0xD800 + ((v - 0x10000) / 0x400)) as u16, (0xDC00 + ((v - 0x10000) % 0x400)) as u16]
    }
}

/// The UTF-16 code units of a character sequence.
pub open spec fn utf16(s: Seq<char>) -> Seq<u16>
    decreases s.len(),
{
    if s.len() == 0 {
        seq![]
    } else {
        utf16(s.drop_last()) + utf16_of(s.last())
    }
}

/// A path as the wide-character system calls take it: UTF-16, then a zero.
pub fn to_utf16(path: &str) -> (r: Vec<u16>)
    ensures
        r@ == utf16(path@).push(0u16),
{
    let cs = chars_of(path);
    let mut r: Vec<u16> = Vec::new();
    let mut i: usize = 0;
    while i < cs.len()
        invariant
            cs@ == path@,
            i <= cs@.len(),
            r@ == utf16(cs@.subrange(0, i as int)),
        decreases cs@.len() - i,
    {
        let v = cs[i] as u32;
        let ghost before = r@;
        if v < 0x10000 {
            r.push(v as u16);
        } else {
            assert(v <= 0x10FFFF) by {
                vstd::utf8::char_is_scalar(cs@[i as int]);
            }
            r.push((0xD800 + ((v - 0x10000) / 0x400)) as u16);
            r.push((0xDC00 + ((v - 0x10000) % 0x400)) as u16);
        }
        proof {
            assert(cs@.subrange(0, i + 1).drop_last() =~= cs@.subrange(0, i as int));
            assert(r@ =~= before + utf16_of(cs@[i as int]));
        }
        i += 1;
    }
    assert(cs@.subrange(0, i as int) =~= cs@);
    r.push(0u16);
    r
}

} // verus!

verus! {

/// How many slots below `end` yield a device and satisfy `f`.
pub open spec fn count_slots(p: Seq<DiskProbe>, end: int, f: spec_fn(DiskProbe) -> bool) -> nat
    decreases end,
{
    if end <= 0 {
        0
    } else {
        count_slots(p, end - 1, f) + if yields_device(p[end - 1]) && f(p[end - 1]) {
            1nat
        } else {
            0nat
        }
    }
}

/// How many of the first `n` records satisfy `g`.
pub open spec fn count_records(r: Seq<BlockDevice>, n: int, g: spec_fn(BlockDevice) -> bool) -> nat
    decreases n,
{
    if n <= 0 {
        0
    } else {
        count_records(r, n - 1, g) + if g(r[n - 1]) {
            1nat
        } else {
            0nat
        }
    }
}

spec fn count_at(p: Seq<DiskProbe>, l: Seq<int>, n: int, f: spec_fn(DiskProbe) -> bool) -> nat
    decreases n,
{
    if n <= 0 {
        0
    } else {
        count_at(p, l, n - 1, f) + if f(p[l[n - 1]]) {
            1nat
        } else {
            0nat
        }
    }
}

proof fn lemma_count_at_prefix(p: Seq<DiskProbe>, l: Seq<int>, m: Seq<int>, n: int, f: spec_fn(DiskProbe) -> bool)
    requires
        0 <= n <= l.len(),
        n <= m.len(),
        forall|k: int| 0 <= k < n ==> l[k] == m[k],
    ensures
        count_at(p, l, n, f) == count_at(p, m, n, f),
    decreases n,
{
    if n > 0 {
        lemma_count_at_prefix(p, l, m, n - 1, f);
    }
}

proof fn lemma_count_listed(p: Seq<DiskProbe>, end: int, f: spec_fn(DiskProbe) -> bool)
    requires
        0 <= end <= p.len(),
    ensures
        count_at(p, listed(p, end), listed(p, end).len() as int, f) == count_slots(p, end, f),
    decreases end,
{
    if end > 0 {
        lemma_count_listed(p, end - 1, f);
        let l = listed(p, end - 1);
        if yields_device(p[end - 1]) {
            let l2 = l.push(end - 1);
            assert(listed(p, end) == l2);
            lemma_count_at_prefix(p, l2, l, l.len() as int, f);
        }
    }
}

proof fn lemma_count_records(
    p: Seq<DiskProbe>,
    l: Seq<int>,
    r: Seq<BlockDevice>,
    n: int,
    f: spec_fn(DiskProbe) -> bool,
    g: spec_fn(BlockDevice) -> bool,
)
    requires
        0 <= n <= r.len(),
        n <= l.len(),
        forall|k: int| 0 <= k < n ==> g(#[trigger] r[k]) == f(p[l[k]]),
    ensures
        count_records(r, n, g) == count_at(p, l, n, f),
    decreases n,
{
    if n > 0 {
        lemma_count_records(p, l, r, n - 1, f, g);
    }
}

pub open spec fn removable_slot(q: DiskProbe) -> bool {
    q matches DiskProbe::Present { props, .. } && props.is_removable
}

pub open spec fn boot_slot(q: DiskProbe) -> bool {
    q matches DiskProbe::Present { letters, .. } && letters@.contains(BOOT_LETTER)
}

/// For slots that hold N disks of non-zero size before the scan ends, K of
/// them removable, the records that `list_devices` returns are exactly N,
/// exactly K of them removable, and exactly as many marked as the system
/// disk as there are disks holding the boot volume: the one such disk when
/// it is among them, none otherwise.
pub proof fn lemma_enumeration_counts(p: Seq<DiskProbe>, r: Seq<BlockDevice>)
    requires
        r.len() == listed(p, scan_end(p)).len(),
        forall|k: int|
            0 <= k < r.len() ==> describes(
                #[trigger] r[k],
                listed(p, scan_end(p))[k] as nat,
                p[listed(p, scan_end(p))[k]],
            ),
    ensures
        r.len() == count_slots(p, scan_end(p), |q: DiskProbe| true),
        count_records(r, r.len() as int, |d: BlockDevice| d.is_removable) == count_slots(
            p,
            scan_end(p),
            |q: DiskProbe| removable_slot(q),
        ),
        count_records(r, r.len() as int, |d: BlockDevice| d.is_system) == count_slots(
            p,
            scan_end(p),
            |q: DiskProbe| boot_slot(q),
        ),
{
    let end = scan_end(p);
    lemma_scan_end_bounds(p, 0, 0);
    let l = listed(p, end);
    let all = |q: DiskProbe| true;
    let rem = |q: DiskProbe| removable_slot(q);
    let boot = |q: DiskProbe| boot_slot(q);
    lemma_count_listed(p, end, all);
    lemma_count_listed(p, end, rem);
    lemma_count_listed(p, end, boot);
    lemma_count_records(p, l, r, r.len() as int, all, |d: BlockDevice| true);
    assert forall|k: int| 0 <= k < r.len() implies (#[trigger] r[k]).is_removable == rem(p[l[k]]) by {
        assert(describes(r[k], l[k] as nat, p[l[k]]));
    }
    lemma_count_records(p, l, r, r.len() as int, rem, |d: BlockDevice| d.is_removable);
    assert forall|k: int| 0 <= k < r.len() implies (#[trigger] r[k]).is_system == boot(p[l[k]]) by {
        assert(describes(r[k], l[k] as nat, p[l[k]]));
    }
    lemma_count_records(p, l, r, r.len() as int, boot, |d: BlockDevice| d.is_system);
    assert(count_records(r, r.len() as int, |d: BlockDevice| true) == r.len()) by {
        lemma_count_all(r, r.len() as int);
    }
}

proof fn lemma_count_all(r: Seq<BlockDevice>, n: int)
    requires
        0 <= n <= r.len(),
    ensures
        count_records(r, n, |d: BlockDevice| true) == n,
    decreases n,
{
    if n > 0 {
        lemma_count_all(r, n - 1);
    }
}

} // verus!
