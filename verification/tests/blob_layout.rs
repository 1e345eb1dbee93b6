use storage::config::trim_trailing_slashes;
use storage::store::fs_io::slice_location;
use storage::store::fs_io::split_id_into_directory_and_filename;
use storage::store::fs_io::transform_id_into_chunks;
use storage::store::fs_io::SliceLocation;
use storage::Args;

const ID: &str = "0123456789abcdef0123456789abcdef0123456789abcdef0123456789abcdef";

#[test]
fn id_is_cut_into_chunks_of_two() {
    assert_eq!(transform_id_into_chunks("1234567890"), vec!["12", "34", "56", "78", "90"]);
    assert_eq!(transform_id_into_chunks("12345"), vec!["12", "34", "5"]);
    assert_eq!(transform_id_into_chunks("1"), vec!["1"]);
    assert_eq!(transform_id_into_chunks(""), Vec::<&str>::new());
    assert_eq!(transform_id_into_chunks(ID).len(), 32);
}

#[test]
fn first_chunks_become_directories() {
    assert_eq!(
        split_id_into_directory_and_filename("1234567890", 3, 2),
        ("12/34/56".to_string(), "7890".to_string())
    );
    assert_eq!(
        split_id_into_directory_and_filename("1234567890", 1, 2),
        ("12".to_string(), "34567890".to_string())
    );
    assert_eq!(
        split_id_into_directory_and_filename("1234567890", 2, 3),
        ("123/456".to_string(), "7890".to_string())
    );
}

#[test]
fn depth_zero_leaves_the_id_as_file_name() {
    assert_eq!(
        split_id_into_directory_and_filename("1234567890", 0, 2),
        ("".to_string(), "1234567890".to_string())
    );
}

#[test]
fn id_shorter_than_the_depth_goes_into_directories() {
    assert_eq!(
        split_id_into_directory_and_filename("12345", 10, 2),
        ("12/34/5".to_string(), "".to_string())
    );
    assert_eq!(
        split_id_into_directory_and_filename("1234", 2, 2),
        ("12/34".to_string(), "".to_string())
    );
    assert_eq!(
        split_id_into_directory_and_filename("", 3, 2),
        ("".to_string(), "".to_string())
    );
    assert_eq!(
        split_id_into_directory_and_filename("12", usize::MAX, usize::MAX),
        ("12".to_string(), "".to_string())
    );
}

#[test]
fn object_lives_below_the_storage_root() {
    assert_eq!(
        slice_location("/tmp/storage", ID, 10),
        SliceLocation {
            directory: "/tmp/storage/01/23/45/67/89/ab/cd/ef/01/23".to_string(),
            path: "/tmp/storage/01/23/45/67/89/ab/cd/ef/01/23/456789abcdef0123456789abcdef0123456789abcdef"
                .to_string(),
        }
    );
    assert_eq!(
        slice_location("/data", "1234567890", 3),
        SliceLocation {
            directory: "/data/12/34/56".to_string(),
            path: "/data/12/34/56/7890".to_string(),
        }
    );
}

#[test]
fn reading_and_writing_address_the_same_file_and_no_other() {
    let other = "1123456789abcdef0123456789abcdef0123456789abcdef0123456789abcdef";
    assert_eq!(slice_location("/tmp/storage", ID, 10), slice_location("/tmp/storage", ID, 10));
    assert_ne!(
        slice_location("/tmp/storage", ID, 10).path,
        slice_location("/tmp/storage", other, 10).path
    );
    // Ids that differ only behind the directories share the directory.
    let sibling = "0123456789abcdef0123f56789abcdef0123456789abcdef0123456789abcdef";
    assert_eq!(
        slice_location("/tmp/storage", ID, 10).directory,
        slice_location("/tmp/storage", sibling, 10).directory
    );
    assert_ne!(
        slice_location("/tmp/storage", ID, 10).path,
        slice_location("/tmp/storage", sibling, 10).path
    );
}

#[test]
fn slashes_at_the_end_of_the_storage_location_are_cut_off() {
    assert_eq!(trim_trailing_slashes("/tmp/storage"), "/tmp/storage");
    assert_eq!(trim_trailing_slashes("/tmp/storage/"), "/tmp/storage");
    assert_eq!(trim_trailing_slashes("/tmp/storage///"), "/tmp/storage");
    assert_eq!(trim_trailing_slashes("/tmp//storage"), "/tmp//storage");
    assert_eq!(trim_trailing_slashes("///"), "");
    assert_eq!(trim_trailing_slashes(""), "");
}

#[test]
fn options_have_defaults_and_are_normalized() {
    let args = Args::with_defaults("monitor:9000".to_string(), "10.0.0.1:10001".to_string());
    assert_eq!(
        args,
        Args {
            listen_addr: "0.0.0.0".to_string(),
            port: 10001,
            storage_location: "/tmp/storage".to_string(),
            monitor_addr: "monitor:9000".to_string(),
            storage_directory_depth: 10,
            node_id: 0,
            node_addr: "10.0.0.1:10001".to_string(),
            payload_size: 1 << 16,
        }
    );
    let given = Args { storage_location: "/srv/objects//".to_string(), port: 8080, ..args };
    let normalized = given.normalized();
    assert_eq!(normalized.storage_location, "/srv/objects");
    assert_eq!(normalized.port, 8080);
    assert_eq!(normalized.monitor_addr, "monitor:9000");
}
