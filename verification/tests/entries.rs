use my_os::attribute::Attributes;
use my_os::cluster::Cluster;
use my_os::datetime::FatDateTime;
use my_os::dir_entry::DirectoryEntry;
use my_os::dir_iter::DirectoryIterator;
use my_os::filesystem::FatFileSystem;
use my_os::name::ShortFileName;
use my_os::storage::{MockStorage, StorageDevice};

#[test]
fn test_directory_entry_creation() {
    let entry = DirectoryEntry::new("TESTFILE.TXT", Cluster(5), 1024, 0x20);

    assert_eq!(entry.file_name(), "TESTFILE.TXT");
    assert_eq!(entry.start_cluster.0, 5);
    assert_eq!(entry.file_size, 1024);
    assert!(entry.is_file());
    assert!(!entry.is_directory());
}

#[test]
fn test_directory_entry_for_directory() {
    let entry = DirectoryEntry::new("DIR1", Cluster(2), 0, 0x10);

    assert!(entry.is_directory());
    assert!(!entry.is_file());
    assert_eq!(entry.file_name(), "DIR1");
}

#[test]
fn test_directory_entry_truncates() {
    let entry = DirectoryEntry::new("VERYLONGNAME.TOOLONG", Cluster(2), 0, 0x20);
    assert_eq!(entry.file_name(), "VERYLONG.TOO");
}

#[test]
fn test_directory_entry_record_bytes() {
    let entry = DirectoryEntry::new("AB.C", Cluster(0x0001_2345), 1024, 0x20);
    let bytes = entry.to_bytes();

    assert_eq!(bytes.len(), 32);
    assert_eq!(&bytes[0..11], b"AB      C  ");
    assert_eq!(bytes[11], 0x20);
    assert_eq!(&bytes[12..20], &[0u8; 8]);
    assert_eq!(&bytes[20..22], &[0x01, 0x00]); // start cluster, high word
    assert_eq!(&bytes[22..26], &[0u8; 4]);
    assert_eq!(&bytes[26..28], &[0x45, 0x23]); // start cluster, low word
    assert_eq!(&bytes[28..32], &[0x00, 0x04, 0x00, 0x00]); // size 1024
}

#[test]
fn test_directory_entry_record_roundtrip() {
    let entry = DirectoryEntry::new("FILE1.TXT", Cluster(77), 512, 0x21);
    let bytes = entry.to_bytes();
    let back = DirectoryEntry::from_bytes(&bytes, 0);

    assert_eq!(back.file_name(), "FILE1.TXT");
    assert_eq!(back.attributes, 0x21);
    assert_eq!(back.start_cluster.0, 77);
    assert_eq!(back.file_size, 512);
}

#[test]
fn test_directory_iterator() {
    let mock_storage = MockStorage::new(1024 * 1024);
    let mut fs = FatFileSystem::new(mock_storage, 0, 4096);

    let cluster = Cluster(2);
    let entry1 = DirectoryEntry::new("FILE1.TXT", cluster, 512, 0x20);
    let entry2 = DirectoryEntry::new("DIR1", cluster, 0, 0x10);

    let entry1_bytes = entry1.to_bytes();
    let entry2_bytes = entry2.to_bytes();

    fs.storage_device.write(0, &entry1_bytes).unwrap();
    fs.storage_device.write(32, &entry2_bytes).unwrap();

    let mut dir_iter = DirectoryIterator::new(cluster);
    let first_entry = dir_iter.next(&fs).unwrap();
    let second_entry = dir_iter.next(&fs).unwrap();

    assert_eq!(first_entry.file_name(), "FILE1.TXT");
    assert_eq!(second_entry.file_name(), "DIR1");

    // the third record is unused, which ends the directory
    assert!(dir_iter.next(&fs).is_none());
    assert!(dir_iter.next(&fs).is_none());
}

#[test]
fn test_attributes() {
    let attr = Attributes::new(Attributes::READ_ONLY | Attributes::HIDDEN);
    assert!(attr.is_read_only());
    assert!(attr.is_hidden());
    assert!(!attr.is_system());
}

#[test]
fn test_attribute_flags() {
    let dir = Attributes::new(Attributes::DIRECTORY);
    assert!(dir.is_directory());
    assert!(!dir.is_archive());

    let archived = Attributes::new(Attributes::ARCHIVE | Attributes::SYSTEM);
    assert!(archived.is_archive());
    assert!(archived.is_system());
    assert!(!archived.is_read_only());
}

#[test]
fn test_short_filename() {
    let filename = ShortFileName::new("example", "txt");
    assert_eq!(filename.as_str(), "EXAMPLE.TXT");
}

#[test]
fn test_short_filename_truncates_and_pads() {
    assert_eq!(ShortFileName::new("toolongname", "text").as_str(), "TOOLONGN.TEX");
    // the short-name form keeps its dot even without an extension
    assert_eq!(ShortFileName::new("a", "").as_str(), "A.");
    assert_eq!(ShortFileName::new("", "").as_str(), ".");
}

#[test]
fn test_fat_datetime() {
    let datetime = FatDateTime::new(2024, 6, 1, 12, 0, 0);
    let timestamp = datetime.to_unix_timestamp();
    assert!(timestamp > 1_700_000_000);
}

#[test]
fn test_fat_datetime_exact() {
    // the documented approximation: 365-day years, 30-day months
    let datetime = FatDateTime::new(2024, 6, 1, 12, 0, 0);
    let days = (2024 - 1970) * 365 + 6 * 30 + 1;
    assert_eq!(datetime.to_unix_timestamp(), days * 86400 + 12 * 3600);

    let epoch = FatDateTime::new(1970, 0, 0, 0, 0, 0);
    assert_eq!(epoch.to_unix_timestamp(), 0);
}
