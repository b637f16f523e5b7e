use uchi_pulse::common::udp::InputEvent;
use uchi_pulse::node::config::{ConfigValidationError, GpioInputConfig, InputMapping, PersistedNodeConfig};
use uchi_pulse::node::storage::{
    stored_record,
    ConfigManager, ConfigManagerError, MemoryConfigStorage, MemoryStorageError,
    StorageEnvelope, CONFIG_STORAGE_FORMAT_VERSION, CONFIG_STORAGE_SIZE,
};

type Storage = MemoryConfigStorage<CONFIG_STORAGE_SIZE>;

fn config(action_id: u32) -> PersistedNodeConfig {
    let mut config = PersistedNodeConfig::defaults();
    config.input_mappings.push(InputMapping { gpio: 2, input_event: InputEvent::Click, action_id, enabled: true });
    config
}

fn envelope_text(version: u8, config: &PersistedNodeConfig) -> String {
    format!("{{\"version\":{},\"config\":{}}}", version, config.to_json())
}

/// What the manager picks at boot from `storage`, with `decoded` standing
/// for the JSON decoder's reading of the stored bytes.
fn boot(mut storage: Storage, decoded: impl Fn(&[u8]) -> Option<StorageEnvelope>) -> ConfigManager<Storage> {
    let envelope = ConfigManager::read_stored(&mut storage).and_then(|bytes| decoded(&bytes));
    ConfigManager::with_stored(storage, PersistedNodeConfig::defaults(), envelope)
}

#[test]
fn saves_and_restores_valid_config() {
    let storage = Storage::default();
    let defaults = PersistedNodeConfig::defaults();
    let mut manager = ConfigManager::with_stored(storage.clone(), defaults.clone(), None);
    manager.set_config(config(42)).unwrap();
    let storage = manager.storage().clone();
    let expected = envelope_text(CONFIG_STORAGE_FORMAT_VERSION, &config(42));
    let restored = boot(storage, |bytes| {
        assert_eq!(bytes, expected.as_bytes());
        Some(StorageEnvelope { version: CONFIG_STORAGE_FORMAT_VERSION, config: config(42) })
    });
    assert_eq!(restored.config().input_mappings[0].action_id, 42);
}

#[test]
fn missing_or_corrupt_data_falls_back_to_defaults() {
    let defaults = PersistedNodeConfig::defaults();
    let empty = boot(Storage::default(), |_| panic!("an empty area has no record"));
    assert_eq!(empty.config(), &defaults);

    let corrupt = boot(Storage::from_record(b"not-json"), |bytes| {
        assert_eq!(bytes, b"not-json");
        None
    });
    assert_eq!(corrupt.config(), &defaults);
}

#[test]
fn invalid_saved_config_falls_back_to_defaults() {
    let mut invalid = config(7);
    invalid.gpio_inputs[0] = GpioInputConfig { gpio: 99, active_high: true, debounce_ms: 30 };
    let raw = envelope_text(CONFIG_STORAGE_FORMAT_VERSION, &invalid);
    let manager = boot(Storage::from_record(raw.as_bytes()), |_| {
        Some(StorageEnvelope { version: CONFIG_STORAGE_FORMAT_VERSION, config: invalid.clone() })
    });
    assert_eq!(manager.config(), &PersistedNodeConfig::defaults());
}

#[test]
fn version_mismatch_falls_back_and_factory_reset_clears_only_storage() {
    let raw = envelope_text(99, &config(12));
    let mut manager = boot(Storage::from_record(raw.as_bytes()), |_| {
        Some(StorageEnvelope { version: 99, config: config(12) })
    });
    assert_eq!(manager.config(), &PersistedNodeConfig::defaults());
    manager.set_config(config(12)).unwrap();
    manager.factory_reset().unwrap();
    assert_eq!(manager.config().input_mappings[0].action_id, 12);
    let restored = boot(manager.storage().clone(), |_| panic!("a cleared area has no record"));
    assert_eq!(restored.config(), &PersistedNodeConfig::defaults());
}

#[test]
fn validation_failure_and_storage_failure_do_not_replace_active_config() {
    let defaults = PersistedNodeConfig::defaults();
    let mut storage = Storage::default();
    storage.fail_next_write();
    let mut manager = ConfigManager::with_stored(storage, defaults.clone(), None);
    let mut invalid = defaults.clone();
    invalid.double_click_interval_ms = 0;
    assert!(matches!(
        manager.set_config(invalid),
        Err(ConfigManagerError::InvalidConfig(ConfigValidationError::ZeroDoubleClickInterval))
    ));
    assert_eq!(manager.config(), &defaults);
    assert!(matches!(manager.set_config(config(8)), Err(ConfigManagerError::Storage(MemoryStorageError::Write))));
    assert_eq!(manager.config(), &defaults);
}

#[test]
fn memory_area_reads_back_what_was_written_and_fails_once_on_request() {
    let mut storage = MemoryConfigStorage::<8>::default();
    let mut buffer = [0u8; 8];
    assert_eq!(storage.read_record(&mut buffer), Ok(0));
    assert_eq!(storage.write_record(b"abc"), Ok(()));
    assert_eq!(storage.read_record(&mut buffer), Ok(3));
    assert_eq!(&buffer[..3], b"abc");
    assert_eq!(storage.write_record(b"123456789"), Err(MemoryStorageError::Write));
    storage.fail_next_read();
    assert_eq!(storage.read_record(&mut buffer), Err(MemoryStorageError::Read));
    assert_eq!(storage.read_record(&mut buffer), Ok(3));
    storage.fail_next_clear();
    assert_eq!(storage.clear_record(), Err(MemoryStorageError::Clear));
    assert_eq!(storage.clear_record(), Ok(()));
    assert_eq!(storage.read_record(&mut buffer), Ok(0));
    let mut small = [0u8; 2];
    storage.write_record(b"xyz").unwrap();
    assert_eq!(storage.read_record(&mut small), Ok(2));
    assert_eq!(&small, b"xy");
}

#[test]
fn oversized_record_is_cut_to_the_area() {
    let mut storage = MemoryConfigStorage::<4>::from_record(b"abcdef");
    let mut buffer = [0u8; 8];
    assert_eq!(storage.read_record(&mut buffer), Ok(4));
    assert_eq!(&buffer[..4], b"abcd");
}

#[test]
fn a_read_gives_the_front_of_the_buffer_when_it_fits() {
    let buffer = [1u8, 2, 3, 4];
    assert_eq!(stored_record::<MemoryStorageError>(&buffer, Ok(2)), Some(vec![1, 2]));
    assert_eq!(stored_record::<MemoryStorageError>(&buffer, Ok(0)), None);
    assert_eq!(stored_record::<MemoryStorageError>(&buffer, Ok(5)), None);
    assert_eq!(stored_record(&buffer, Err(MemoryStorageError::Read)), None);
}

#[test]
fn factory_reset_leaves_no_record_and_reports_a_failed_clear() {
    let mut manager = ConfigManager::with_stored(Storage::from_record(b"{}"), PersistedNodeConfig::defaults(), None);
    assert!(manager.factory_reset().is_ok());
    let mut storage = manager.storage().clone();
    assert_eq!(ConfigManager::read_stored(&mut storage), None);
    let mut failing = Storage::from_record(b"{}");
    failing.fail_next_clear();
    let mut manager = ConfigManager::with_stored(failing, PersistedNodeConfig::defaults(), None);
    assert!(matches!(manager.factory_reset(), Err(ConfigManagerError::Storage(MemoryStorageError::Clear))));
}

#[test]
fn a_refused_write_keeps_the_record_and_the_next_write_goes_through() {
    let storage = Storage::default();
    let mut manager = ConfigManager::with_stored(storage, PersistedNodeConfig::defaults(), None);
    manager.set_config(config(5)).unwrap();
    let kept = envelope_text(CONFIG_STORAGE_FORMAT_VERSION, &config(5));
    let mut storage = manager.storage().clone();
    storage.fail_next_write();
    let mut manager = ConfigManager::with_stored(storage, config(5), None);
    assert!(matches!(manager.set_config(config(6)), Err(ConfigManagerError::Storage(MemoryStorageError::Write))));
    assert_eq!(manager.config().input_mappings[0].action_id, 5);
    let mut storage = manager.storage().clone();
    assert_eq!(ConfigManager::read_stored(&mut storage), Some(kept.into_bytes()));
    assert!(manager.set_config(config(6)).is_ok());
    assert_eq!(manager.config().input_mappings[0].action_id, 6);
    let mut storage = manager.storage().clone();
    let expected = envelope_text(CONFIG_STORAGE_FORMAT_VERSION, &config(6));
    assert_eq!(ConfigManager::read_stored(&mut storage), Some(expected.into_bytes()));
}

#[test]
fn the_boot_read_returns_the_whole_record() {
    let record = envelope_text(CONFIG_STORAGE_FORMAT_VERSION, &config(9));
    let mut storage = Storage::from_record(record.as_bytes());
    assert_eq!(ConfigManager::read_stored(&mut storage), Some(record.into_bytes()));
    let mut empty = Storage::default();
    assert_eq!(ConfigManager::read_stored(&mut empty), None);
}
