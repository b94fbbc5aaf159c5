use baglama2::group_id::GroupId;

#[test]
fn test_group_id() {
    let gid = GroupId::try_from(1).unwrap();
    assert_eq!(gid.get(), 1);
    assert_eq!(gid.to_string(), "1");
}

#[test]
fn test_group_id_zero() {
    assert!(GroupId::try_from(0).is_err());
}

#[test]
fn test_group_id_larger_values() {
    let gid = GroupId::try_from(1255).unwrap();
    assert_eq!(gid.get(), 1255);
    assert_eq!(gid.as_usize(), 1255);
    assert_eq!(gid.to_string(), "1255");
}
