use stockpile::shard::{get_crates_io_index_path, get_path_for_crate, shard_dir_of, shard_path_of};

#[test]
fn index_get_path_for_crate_works_for_all_crate_names() {
    assert_eq!(get_path_for_crate("a"), "1/a".to_string());
    assert_eq!(get_path_for_crate("ab"), "2/ab".to_string());
    assert_eq!(get_path_for_crate("abc"), "3/abc".to_string());
    assert_eq!(get_path_for_crate("abcd"), "ab/cd/abcd".to_string());
}

#[test]
fn mod_get_path_for_crate_works_for_all_crate_names() {
    assert_eq!(get_path_for_crate("a"), "1/a".to_string());
    assert_eq!(get_path_for_crate("ab"), "2/ab".to_string());
    assert_eq!(get_path_for_crate("abc"), "3/abc".to_string());
    assert_eq!(get_path_for_crate("abcd"), "ab/cd/abcd".to_string());
}

#[test]
fn test_get_crates_io_index_path_works() {
    assert_eq!(get_crates_io_index_path("./", "c"), "./1/c".to_string());
    assert_eq!(get_crates_io_index_path("./", "cr"), "./2/cr".to_string());
    assert_eq!(get_crates_io_index_path("./", "cra"), "./3/cra".to_string());
    assert_eq!(get_crates_io_index_path("./", "crate"), "./cr/at/crate".to_string());
}

#[test]
fn shard_lower_cases_the_name() {
    assert_eq!(get_path_for_crate("Serde"), "se/rd/serde".to_string());
    assert_eq!(get_path_for_crate("AB"), "2/ab".to_string());
}

#[test]
fn shard_of_lowered_name_is_exact() {
    assert_eq!(shard_path_of("serde"), "se/rd/serde".to_string());
    assert_eq!(shard_dir_of("serde"), "se/rd".to_string());
    assert_eq!(shard_dir_of("xyz"), "3".to_string());
    assert_eq!(shard_path_of("Ab"), "2/Ab".to_string());
}
