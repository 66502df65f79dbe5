use my_os::cluster::Cluster;
use my_os::dir_iter::ClusterChainIter;
use my_os::filesystem::FatFileSystem;
use my_os::offset_iter::ClusterOffsetIter;
use my_os::storage::{MockStorage, StorageDevice};
use my_os::table::FatValue;

#[test]
fn test_filesystem_initialization() {
    let mock_storage = MockStorage::new(1024 * 1024);
    let fs = FatFileSystem::new(mock_storage, 0, 4096);

    assert_eq!(fs.cluster_size, 4096);
}

#[test]
fn test_cluster_allocation() {
    let mock_storage = MockStorage::new(1024 * 1024);
    let mut fs = FatFileSystem::new(mock_storage, 0, 4096);

    let cluster = fs.allocate_cluster();
    assert!(cluster.is_some());
}

#[test]
fn test_fat_value_conversion() {
    let data_cluster = FatValue::Data(1234);
    assert_eq!(
        match data_cluster {
            FatValue::Data(val) => val,
            _ => 0,
        },
        1234
    );

    let end_of_chain = FatValue::EndOfChain;
    assert!(matches!(end_of_chain, FatValue::EndOfChain));
}

#[test]
fn test_cluster_offset_iter() {
    let start_cluster = Cluster(5);
    let end_cluster = 7;
    let mut iter = ClusterOffsetIter::new(start_cluster, end_cluster);

    assert_eq!(iter.next(), Some(Cluster(5)));
    assert_eq!(iter.next(), Some(Cluster(6)));
    assert_eq!(iter.next(), Some(Cluster(7)));
    assert_eq!(iter.next(), None);
}

#[test]
fn test_cluster_offset_iter_empty_range() {
    let mut iter = ClusterOffsetIter::new(Cluster(9), 7);
    assert_eq!(iter.next(), None);
}

#[test]
fn test_cluster_to_offset() {
    assert_eq!(Cluster(2).to_offset(4096), 0);
    assert_eq!(Cluster(5).to_offset(4096), 3 * 4096);
    assert_eq!(Cluster(7).to_offset(4), 20);
}

#[test]
fn test_cluster_validity() {
    assert!(!Cluster(0).is_valid());
    assert!(!Cluster(1).is_valid());
    assert!(Cluster(2).is_valid());
    assert!(Cluster(0x0FFF_FFF7).is_valid());
    assert!(!Cluster(0x0FFF_FFF8).is_valid());
    assert!(!Cluster(0xFFFF_FFFF).is_valid());
}

#[test]
fn test_fat_value_roundtrip_samples() {
    // decode(encode(decode(raw))) == decode(raw), sampled across the bands
    let samples: [u32; 8] = [
        0,
        1,
        2,
        1234,
        0x0FFF_FFF7,
        0x0FFF_FFF8,
        0x0FFF_FFFF,
        0xFFFF_FFFF,
    ];
    for raw in samples {
        let once = FatValue::decode(raw);
        let again = FatValue::decode(once.encode());
        assert_eq!(once, again);
    }
    assert_eq!(FatValue::decode(0), FatValue::Free);
    assert_eq!(FatValue::decode(1), FatValue::Bad);
    assert_eq!(FatValue::decode(1234), FatValue::Data(1234));
    assert_eq!(FatValue::decode(0x0FFF_FFF7), FatValue::Bad);
    assert_eq!(FatValue::decode(0x0FFF_FFF9), FatValue::EndOfChain);
    assert_eq!(FatValue::decode(0xFFFF_FFFF), FatValue::Bad);
}

#[test]
fn test_allocation_distinct_and_visible() {
    let mock_storage = MockStorage::new(1024 * 1024);
    let mut fs = FatFileSystem::new(mock_storage, 0, 4096);

    let c1 = fs.allocate_cluster().expect("first allocation");
    let c2 = fs.allocate_cluster().expect("second allocation");
    let c3 = fs.allocate_cluster().expect("third allocation");

    assert_ne!(c1, c2);
    assert_ne!(c1, c3);
    assert_ne!(c2, c3);

    // each winner is immediately observable as claimed, not free
    for c in [c1, c2, c3] {
        assert_eq!(FatValue::get(&fs, c), Some(FatValue::EndOfChain));
    }
}

#[test]
fn test_allocation_exhausted_pool() {
    // the device holds exactly three table entries, none of them free
    let mock_storage = MockStorage::new(12);
    let mut fs = FatFileSystem::new(mock_storage, 0, 4096);
    assert!(FatValue::put(&mut fs, Cluster(2), FatValue::EndOfChain));
    assert!(FatValue::put(&mut fs, Cluster(3), FatValue::Bad));
    assert!(FatValue::put(&mut fs, Cluster(4), FatValue::Data(2)));

    assert_eq!(fs.allocate_cluster(), None);
}

#[test]
fn test_allocation_pool_of_exactly_n() {
    // exactly three free entries: three winners, all distinct, then nothing
    let mock_storage = MockStorage::new(12);
    let mut fs = FatFileSystem::new(mock_storage, 0, 4096);

    let c1 = fs.allocate_cluster().expect("first allocation");
    let c2 = fs.allocate_cluster().expect("second allocation");
    let c3 = fs.allocate_cluster().expect("third allocation");
    assert_ne!(c1, c2);
    assert_ne!(c1, c3);
    assert_ne!(c2, c3);

    assert_eq!(fs.allocate_cluster(), None);
}

#[test]
fn test_free_cluster() {
    let mock_storage = MockStorage::new(1024 * 1024);
    let mut fs = FatFileSystem::new(mock_storage, 0, 4096);

    let c = fs.allocate_cluster().expect("allocation");
    assert_eq!(FatValue::get(&fs, c), Some(FatValue::EndOfChain));
    assert!(fs.free_cluster(c));
    assert_eq!(FatValue::get(&fs, c), Some(FatValue::Free));

    // a freed cluster is the first-fit winner again
    assert_eq!(fs.allocate_cluster(), Some(c));
}

#[test]
fn test_fat_get_out_of_range() {
    let mock_storage = MockStorage::new(8);
    let fs = FatFileSystem::new(mock_storage, 0, 4096);

    // entries for clusters 2 and 3 fit the 8-byte device; cluster 4 does not
    assert_eq!(FatValue::get(&fs, Cluster(2)), Some(FatValue::Free));
    assert_eq!(FatValue::get(&fs, Cluster(3)), Some(FatValue::Free));
    assert_eq!(FatValue::get(&fs, Cluster(4)), None);
}

#[test]
fn test_fat_put_out_of_range() {
    let mock_storage = MockStorage::new(8);
    let mut fs = FatFileSystem::new(mock_storage, 0, 4096);

    assert!(!FatValue::put(&mut fs, Cluster(4), FatValue::Free));
}

#[test]
fn test_read_write_cluster_roundtrip() {
    let mock_storage = MockStorage::new(1024);
    let mut fs = FatFileSystem::new(mock_storage, 0, 64);

    let pattern: Vec<u8> = (0..64u8).collect();
    assert!(fs.write_cluster(Cluster(3), &pattern));
    let back = fs.read_cluster(Cluster(3)).expect("read back");
    assert_eq!(back, pattern);
}

#[test]
fn test_read_cluster_out_of_range() {
    let mock_storage = MockStorage::new(64);
    let fs = FatFileSystem::new(mock_storage, 0, 64);

    assert!(fs.read_cluster(Cluster(2)).is_some());
    assert!(fs.read_cluster(Cluster(3)).is_none());
}

#[test]
fn test_write_cluster_out_of_range() {
    let mock_storage = MockStorage::new(64);
    let mut fs = FatFileSystem::new(mock_storage, 0, 64);

    let data = [0xAAu8; 64];
    assert!(fs.write_cluster(Cluster(2), &data));
    assert!(!fs.write_cluster(Cluster(3), &data));
}

#[test]
fn test_cluster_chain_iter() {
    let mock_storage = MockStorage::new(1024 * 1024);
    let mut fs = FatFileSystem::new(mock_storage, 0, 4096);

    // a fragmented chain: 2 -> 5 -> 9, then end of chain
    assert!(FatValue::put(&mut fs, Cluster(2), FatValue::Data(5)));
    assert!(FatValue::put(&mut fs, Cluster(5), FatValue::Data(9)));
    assert!(FatValue::put(&mut fs, Cluster(9), FatValue::EndOfChain));

    let mut iter = ClusterChainIter::new(Cluster(2));
    assert_eq!(iter.next(&fs), Some(Cluster(2)));
    assert_eq!(iter.next(&fs), Some(Cluster(5)));
    assert_eq!(iter.next(&fs), Some(Cluster(9)));
    assert_eq!(iter.next(&fs), None);
}

#[test]
fn test_cluster_chain_iter_stops_on_bad() {
    let mock_storage = MockStorage::new(1024);
    let mut fs = FatFileSystem::new(mock_storage, 0, 4096);

    assert!(FatValue::put(&mut fs, Cluster(2), FatValue::Data(3)));
    assert!(FatValue::put(&mut fs, Cluster(3), FatValue::Bad));

    let mut iter = ClusterChainIter::new(Cluster(2));
    assert_eq!(iter.next(&fs), Some(Cluster(2)));
    assert_eq!(iter.next(&fs), Some(Cluster(3)));
    assert_eq!(iter.next(&fs), None);
}

#[test]
fn test_mock_storage_bounds() {
    let mut device = MockStorage::new(16);
    assert!(device.write(0, &[1, 2, 3, 4]).is_ok());
    assert!(device.write(14, &[1, 2, 3]).is_err());
    assert_eq!(device.read(0, 4), Some(vec![1, 2, 3, 4]));
    assert_eq!(device.read(14, 3), None);
}
