use globby::files::{fresh_temp_file_name, temp_file_name, DUMP_FILENAME};

#[test]
fn dump_file_name_is_fixed() {
    assert_eq!(DUMP_FILENAME, "room_data.json");
}

#[test]
fn temp_file_name_is_tmp_and_32_hex_digits() {
    assert_eq!(temp_file_name(0), "tmp.00000000000000000000000000000000");
    assert_eq!(temp_file_name(1), "tmp.00000000000000000000000000000001");
    assert_eq!(temp_file_name(0xdead_beef), "tmp.000000000000000000000000deadbeef");
    assert_eq!(temp_file_name(u128::MAX), "tmp.ffffffffffffffffffffffffffffffff");
    assert_eq!(
        temp_file_name(0x0123_4567_89ab_cdef_fedc_ba98_7654_3210),
        "tmp.0123456789abcdeffedcba9876543210"
    );
    for shift in 0..128u32 {
        let nonce = 1u128 << shift;
        assert_eq!(temp_file_name(nonce), format!("tmp.{:032x}", nonce));
        assert_eq!(temp_file_name(nonce - 1), format!("tmp.{:032x}", nonce - 1));
    }
}

#[test]
fn fresh_temp_file_names_are_well_formed_and_differ() {
    let mut names: Vec<String> = Vec::new();
    for _ in 0..20 {
        let name = fresh_temp_file_name();
        assert_eq!(name.len(), 36);
        assert!(name.starts_with("tmp."));
        assert!(name[4..].chars().all(|c| c.is_ascii_digit() || ('a'..='f').contains(&c)));
        assert_ne!(name, DUMP_FILENAME);
        assert!(!names.contains(&name));
        names.push(name);
    }
}
