use armbian_imager::devices::{
    bus_type_to_string, device_properties, drive_letters_in_mask, extents_contain_disk,
    extract_ascii_string, list_devices, scan_stopped, to_utf16, DeviceProperties, DiskProbe,
};

fn props(model: &str, removable: bool, bus: Option<&str>) -> DeviceProperties {
    DeviceProperties { model: model.to_string(), is_removable: removable, bus_type: bus.map(|b| b.to_string()) }
}

fn present(size: u64, removable: bool, letters: &[char]) -> DiskProbe {
    DiskProbe::Present {
        size,
        props: props("Disk Model", removable, Some(if removable { "USB" } else { "NVMe" })),
        letters: letters.to_vec(),
        read_only: false,
    }
}

#[test]
fn bus_names() {
    assert_eq!(bus_type_to_string(0x07), Some("USB"));
    assert_eq!(bus_type_to_string(0x0C), Some("SD"));
    assert_eq!(bus_type_to_string(0x14), Some("NVMe-oF"));
    assert_eq!(bus_type_to_string(0x15), None);
}

#[test]
fn ascii_string_at_offset() {
    let mut buf = vec![0u8; 40];
    buf[20..30].copy_from_slice(b"  SanDisk ");
    assert_eq!(extract_ascii_string(&buf, 20), "SanDisk");
    assert_eq!(extract_ascii_string(&buf, 0), "Physical Drive");
    assert_eq!(extract_ascii_string(&buf, 40), "Physical Drive");
    assert_eq!(extract_ascii_string(&buf, 35), "Physical Drive");
    let mut raw = vec![0u8; 8];
    raw[4..7].copy_from_slice(&[b'A', 0xFF, b'B']);
    assert_eq!(extract_ascii_string(&raw, 4), "A\u{FFFD}B");
}

fn descriptor(bus: u8, model: &[u8]) -> Vec<u8> {
    let mut d = vec![0u8; 40];
    d[28] = bus;
    d[16..20].copy_from_slice(&(40u32).to_le_bytes());
    d.extend_from_slice(model);
    d.push(0);
    d
}

#[test]
fn descriptor_properties() {
    let p = device_properties(&descriptor(0x07, b"Cruzer Blade"), 0);
    assert_eq!(p.model, "Cruzer Blade");
    assert!(p.is_removable);
    assert_eq!(p.bus_type.as_deref(), Some("USB"));
    let p = device_properties(&descriptor(0x11, b"Samsung SSD"), 1);
    assert!(!p.is_removable);
    assert_eq!(p.bus_type.as_deref(), Some("NVMe"));
    let p = device_properties(&descriptor(0x30, b"   "), 2);
    assert!(p.is_removable);
    assert_eq!(p.bus_type, None);
    assert_eq!(p.model, "Physical Drive");
    let p = device_properties(&descriptor(0x30, b"X"), 0);
    assert!(!p.is_removable);
    let short = device_properties(&[0u8; 10], 3);
    assert_eq!(short.model, "Physical Drive");
    assert!(!short.is_removable);
    assert_eq!(short.bus_type, None);
}

#[test]
fn mask_letters_and_extents() {
    assert_eq!(drive_letters_in_mask(0b101), vec!['A', 'C']);
    assert_eq!(drive_letters_in_mask(1 << 25 | 1 << 26), vec!['Z']);
    let mut ext = vec![0u8; 8 + 24 * 2];
    ext[0..4].copy_from_slice(&2u32.to_le_bytes());
    ext[8..12].copy_from_slice(&3u32.to_le_bytes());
    ext[32..36].copy_from_slice(&1u32.to_le_bytes());
    assert!(extents_contain_disk(&ext, 3));
    assert!(extents_contain_disk(&ext, 1));
    assert!(!extents_contain_disk(&ext, 2));
    assert!(!extents_contain_disk(&ext[..40], 1));
    assert!(!extents_contain_disk(&ext[..3], 3));
}

#[test]
fn enumeration_counts_removable_and_system() {
    let probes = vec![
        present(500_107_862_016, false, &['C', 'D']),
        DiskProbe::Unreadable,
        present(31_914_983_424, true, &['E']),
        present(0, true, &[]),
        DiskProbe::OpenFailed { code: 87 },
        present(15_931_539_456, true, &[]),
    ];
    let devices = list_devices(&probes);
    assert_eq!(devices.len(), 3);
    assert_eq!(devices.iter().filter(|d| d.is_removable).count(), 2);
    assert_eq!(devices.iter().filter(|d| d.is_system).count(), 1);
    assert!(devices[0].is_system);
    assert_eq!(devices[0].path, "\\\\.\\PhysicalDrive0");
    assert_eq!(devices[0].name, "Disk 0 (C:, D:)");
    assert_eq!(devices[0].size_formatted, "465.8 GB");
    assert_eq!(devices[1].name, "Disk 2 (E:)");
    assert_eq!(devices[2].name, "Disk 5");
    assert_eq!(devices[2].bus_type.as_deref(), Some("USB"));
}

#[test]
fn enumeration_stops_after_absent_run() {
    let probes = vec![
        present(1000, false, &['C']),
        DiskProbe::OpenFailed { code: 2 },
        DiskProbe::OpenFailed { code: 2 },
        DiskProbe::OpenFailed { code: 5 },
        DiskProbe::OpenFailed { code: 21 },
        present(2000, true, &[]),
    ];
    assert!(!scan_stopped(&probes[..4]));
    assert!(scan_stopped(&probes[..5]));
    let devices = list_devices(&probes);
    assert_eq!(devices.len(), 1);
    let none = list_devices(&[]);
    assert!(none.is_empty());
}

#[test]
fn utf16_paths() {
    let w = to_utf16("\\\\.\\PhysicalDrive1");
    assert_eq!(w.len(), 19);
    assert_eq!(w[0], '\\' as u16);
    assert_eq!(*w.last().unwrap(), 0);
    assert_eq!(to_utf16("é𝄞"), vec![0xE9, 0xD834, 0xDD1E, 0]);
}
