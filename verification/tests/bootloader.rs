use rustems::bootloader::{Bootloader, BootloaderCommand, BootloaderConfig, BootloaderState};

#[test]
fn bootloader_auto_boots() {
    let mut bootloader = Bootloader::new();
    assert_eq!(bootloader.state(), BootloaderState::Bootloader);
    for _ in 0..510 {
        bootloader.update(10);
    }
    assert_eq!(bootloader.state(), BootloaderState::Normal);
}

#[test]
fn enter_bootloader_command() {
    let mut bootloader = Bootloader::new();
    bootloader.process_command(BootloaderCommand::BootApplication);
    assert_eq!(bootloader.state(), BootloaderState::Normal);
    bootloader.process_command(BootloaderCommand::EnterBootloader);
    assert_eq!(bootloader.state(), BootloaderState::Bootloader);
}

#[test]
fn start_update_sequence() {
    let mut bootloader = Bootloader::new();
    bootloader.process_command(BootloaderCommand::StartUpdate);
    assert_eq!(bootloader.state(), BootloaderState::Receiving);
}

#[test]
fn cancel_update() {
    let mut bootloader = Bootloader::new();
    bootloader.process_command(BootloaderCommand::StartUpdate);
    bootloader.process_command(BootloaderCommand::CancelUpdate);
    assert_eq!(bootloader.state(), BootloaderState::Bootloader);
}

#[test]
fn receive_firmware_data() {
    let mut bootloader = Bootloader::new();
    bootloader.process_command(BootloaderCommand::StartUpdate);
    let data = [0u8; 100];
    assert!(bootloader.receive_firmware(&data));
    let status = bootloader.update(10);
    assert_eq!(status.firmware_size, 100);
}

#[test]
fn firmware_size_limit() {
    let mut bootloader = Bootloader::new();
    bootloader.process_command(BootloaderCommand::StartUpdate);
    let large_data = vec![0u8; 1024 * 1024];
    assert!(!bootloader.receive_firmware(&large_data));
}

#[test]
fn rollback_support() {
    let mut bootloader = Bootloader::new();
    bootloader.increment_boot_attempts();
    assert!(bootloader.is_rollback_available());
    bootloader.process_command(BootloaderCommand::Rollback);
    assert_eq!(bootloader.state(), BootloaderState::RollbackAvailable);
}

#[test]
fn boot_attempt_counter() {
    let mut bootloader = Bootloader::new();
    assert_eq!(bootloader.boot_attempts(), 0);
    bootloader.increment_boot_attempts();
    bootloader.increment_boot_attempts();
    assert_eq!(bootloader.boot_attempts(), 2);
}

#[test]
fn auto_boot_happens_exactly_at_timeout() {
    let mut bootloader = Bootloader::new();
    for _ in 0..499 {
        bootloader.update(10);
    }
    assert_eq!(bootloader.state(), BootloaderState::Bootloader);
    let status = bootloader.update(10);
    assert_eq!(status.state, BootloaderState::Normal);
    assert_eq!(status.firmware_crc, None);
}

#[test]
fn firmware_exactly_at_limit_is_accepted() {
    let cfg = BootloaderConfig { max_firmware_size: 100, ..BootloaderConfig::default() };
    let mut bootloader = Bootloader::with_config(cfg);
    bootloader.process_command(BootloaderCommand::StartUpdate);
    assert!(bootloader.receive_firmware(&[0u8; 60]));
    assert!(bootloader.receive_firmware(&[0u8; 40]));
    assert!(!bootloader.receive_firmware(&[0u8; 1]));
    assert_eq!(bootloader.update(0).firmware_size, 100);
}

#[test]
fn firmware_rejected_when_not_receiving() {
    let mut bootloader = Bootloader::new();
    assert!(!bootloader.receive_firmware(&[1, 2, 3]));
    assert_eq!(bootloader.update(0).firmware_size, 0);
}

#[test]
fn rollback_disabled_keeps_state() {
    let cfg = BootloaderConfig { enable_rollback: false, ..BootloaderConfig::default() };
    let mut bootloader = Bootloader::with_config(cfg);
    bootloader.increment_boot_attempts();
    assert!(!bootloader.is_rollback_available());
    bootloader.process_command(BootloaderCommand::Rollback);
    assert_eq!(bootloader.state(), BootloaderState::Bootloader);
    assert!(bootloader.is_bootloader_active());
}

#[test]
fn default_config_values() {
    let cfg = BootloaderConfig::default();
    assert_eq!(cfg.boot_timeout_ms, 5000);
    assert_eq!(cfg.max_firmware_size, 512 * 1024);
    assert!(cfg.enable_rollback);
    assert_eq!(cfg.crc_polynomial, 0x04C11DB7);
    let mut b = Bootloader::default();
    b.set_config(BootloaderConfig { boot_timeout_ms: 1, ..cfg });
    assert_eq!(b.config().boot_timeout_ms, 1);
}

#[test]
fn auto_boot_after_uneven_steps() {
    let cfg = BootloaderConfig {
        boot_timeout_ms: 100,
        max_firmware_size: 1024,
        enable_rollback: true,
        crc_polynomial: 0x04C1_1DB7,
    };
    let mut b = Bootloader::with_config(cfg);
    assert_eq!(b.update(30).state, BootloaderState::Bootloader);
    assert_eq!(b.update(69).state, BootloaderState::Bootloader);
    let st = b.update(1);
    assert_eq!(st.state, BootloaderState::Normal);
    assert_eq!(st.firmware_crc, None);
}

#[test]
fn rollback_counts_failures_since_last_boot() {
    let mut b = Bootloader::new();
    assert!(!b.is_rollback_available());
    b.increment_boot_attempts();
    b.increment_boot_attempts();
    assert!(b.is_rollback_available());
    assert_eq!(b.boot_attempts(), 2);
    b.process_command(BootloaderCommand::BootApplication);
    assert!(!b.is_rollback_available());
    b.increment_boot_attempts();
    assert_eq!(b.boot_attempts(), 1);
}
