use sha2::Digest;
use teamchat::naming::snapshot_file_name;

#[test]
fn snapshot_file_name_hashes_the_address() {
    let address = "192.168.1.20:5181";
    let digest = sha2::Sha224::digest(address.as_bytes());
    let expected = format!("snapshot_{}.json", base64::encode_config(digest, base64::URL_SAFE));
    assert_eq!(snapshot_file_name(address), expected);
    assert_eq!(snapshot_file_name(address).len(), "snapshot_".len() + 40 + ".json".len());
    assert_ne!(snapshot_file_name("192.168.1.21:5181"), expected);
}
