use boulder_drivers::drivernet::fingerprint::{
    FirmwareFramebufferEvidence, FirmwareFramebufferKind,
};
use boulder_drivers::firmware_display::{
    expand_5, expand_6, inspect, normalize_color, release, render_boot_signature, retain,
    signature_color, snapshot, FirmwareColor, FirmwareDisplayError, FirmwareDisplayMapping,
    FirmwareDisplayTable, PixelTrace, PixelWindow, FRAMEBUFFER_FORMAT_RGB565,
};
use boulder_drivers::mmio::MmioAccessError;

fn evidence(physical_address: u64) -> FirmwareFramebufferEvidence {
    FirmwareFramebufferEvidence {
        kind: FirmwareFramebufferKind::Vbe,
        physical_address,
        width: 1024,
        height: 768,
        pitch: 4096,
        format: 1,
        byte_length: 4096 * 768,
        owner: None,
        retained: true,
    }
}

#[test]
fn inspected_display_has_stable_object_and_generation() {
    let mut table = FirmwareDisplayTable::new();
    let first = inspect(&mut table, evidence(0xe000_0000), 7).unwrap();
    let second = inspect(&mut table, evidence(0xe000_0000), 7).unwrap();
    assert_eq!(first.object, second.object);
    assert_eq!(first.generation, second.generation);
}

#[test]
fn retain_and_release_are_balanced() {
    let mut table = FirmwareDisplayTable::new();
    let display = inspect(&mut table, evidence(0xe100_0000), 11).unwrap();
    let retained = retain(&mut table, display.object, 11).unwrap();
    assert_eq!(retained.retain_count, 1);
    let released = release(&mut table, display.object, 11).unwrap();
    assert_eq!(released.retain_count, 0);
}

#[test]
fn signature_is_deterministic_and_spatially_varying() {
    let first = signature_color(0, 0, 1024, 64);
    let repeated = signature_color(0, 0, 1024, 64);
    let distant = signature_color(900, 40, 1024, 64);
    assert_eq!(first, repeated);
    assert_ne!(first, distant);
}

#[test]
fn rgb565_roundtrip_is_exact_after_quantization() {
    let color = FirmwareColor {
        red: 211,
        green: 137,
        blue: 73,
    };
    let normalized = normalize_color(color, FRAMEBUFFER_FORMAT_RGB565);
    assert_eq!(normalized.red, expand_5(color.red >> 3));
    assert_eq!(normalized.green, expand_6(color.green >> 2));
    assert_eq!(normalized.blue, expand_5(color.blue >> 3));
}

#[test]
fn channels_expand_to_the_full_range() {
    assert_eq!(expand_5(31), 255);
    assert_eq!(expand_6(63), 255);
    assert_eq!(expand_5(26), 214);
    assert_eq!(expand_6(34), 138);
}

#[test]
fn strangers_and_strange_evidence_are_refused() {
    let mut table = FirmwareDisplayTable::new();
    assert_eq!(
        retain(&mut table, 5, 7).err(),
        Some(FirmwareDisplayError::NotFound)
    );
    let mut lost = evidence(0xe000_0000);
    lost.retained = false;
    assert_eq!(
        inspect(&mut table, lost, 7).err(),
        Some(FirmwareDisplayError::InvalidEvidence)
    );
    let display = inspect(&mut table, evidence(0xe000_0000), 7).unwrap();
    assert_eq!(
        retain(&mut table, display.object, 8).err(),
        Some(FirmwareDisplayError::DomainMismatch)
    );
    for index in 1..4 {
        inspect(&mut table, evidence(0xe000_0000 + index * 0x100_0000), 7).unwrap();
    }
    assert_eq!(
        inspect(&mut table, evidence(0x1_0000_0000), 7).err(),
        Some(FirmwareDisplayError::Capacity)
    );
    assert_eq!(snapshot(&table, display.object), Some(display));
}

struct Pixels {
    bytes: Vec<u8>,
    mapped: u32,
    closed: u32,
}

impl PixelWindow for Pixels {
    fn map(&mut self, _physical: u64, length: usize) -> Result<(), MmioAccessError> {
        self.mapped += 1;
        self.bytes.resize(length, 0);
        Ok(())
    }

    fn read_u32(&mut self, offset: usize) -> Result<u32, MmioAccessError> {
        Ok(u32::from_le_bytes(
            self.bytes[offset..offset + 4].try_into().unwrap(),
        ))
    }

    fn read_u16(&mut self, offset: usize) -> Result<u16, MmioAccessError> {
        Ok(u16::from_le_bytes(
            self.bytes[offset..offset + 2].try_into().unwrap(),
        ))
    }

    fn write_u32(&mut self, offset: usize, value: u32) -> Result<(), MmioAccessError> {
        self.bytes[offset..offset + 4].copy_from_slice(&value.to_le_bytes());
        Ok(())
    }

    fn write_u16(&mut self, offset: usize, value: u16) -> Result<(), MmioAccessError> {
        self.bytes[offset..offset + 2].copy_from_slice(&value.to_le_bytes());
        Ok(())
    }

    fn close(&mut self) -> i32 {
        self.closed += 1;
        0
    }
}

fn pixels() -> Pixels {
    Pixels {
        bytes: Vec::new(),
        mapped: 0,
        closed: 0,
    }
}

#[test]
fn a_drawn_pixel_reads_back() {
    let mut table = FirmwareDisplayTable::new();
    let display = inspect(&mut table, evidence(0xe000_0000), 7).unwrap();
    retain(&mut table, display.object, 7).unwrap();
    let mut window = pixels();
    let mut trace = PixelTrace::new(&mut window);
    let mapping =
        FirmwareDisplayMapping::map_span(&table, display.object, 4096, 4096, &mut trace).unwrap();
    let color = FirmwareColor {
        red: 1,
        green: 2,
        blue: 3,
    };
    assert_eq!(
        mapping.write_pixel(&table, 10, 1, color, &mut trace),
        Ok(())
    );
    assert_eq!(mapping.read_pixel(&table, 10, 1, &mut trace), Ok(color));
    assert_eq!(
        mapping.read_pixel(&table, 10, 2, &mut trace),
        Err(FirmwareDisplayError::PixelOutOfBounds)
    );
    assert_eq!(mapping.close(&mut trace), 0);
    assert_eq!(window.bytes[40..44], [3, 2, 1, 0]);
}

#[test]
fn the_boot_signature_covers_its_stripe() {
    let mut table = FirmwareDisplayTable::new();
    let display = inspect(&mut table, evidence(0xe000_0000), 7).unwrap();
    retain(&mut table, display.object, 7).unwrap();
    let mut window = pixels();
    let report =
        render_boot_signature(&table, display.object, &mut PixelTrace::new(&mut window)).unwrap();
    assert_eq!(report.stripe_height, 64);
    assert_eq!(report.pixels_written, 1024 * 64);
    assert_ne!(report.image_root, 0);
    assert_eq!((window.mapped, window.closed), (1, 1));
}
