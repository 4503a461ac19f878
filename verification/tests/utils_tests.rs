use luts::utils::timestamped_id_text;
use luts::memory::block_id_text;
use luts::utils::{
    current_timestamp_millis, current_timestamp_secs, format_bytes, generate_id, generate_short_id,
    generate_timestamped_id, sanitize_filename, string_hash, truncate_string, validate_file_extension,
};

#[test]
fn test_format_bytes() {
    assert_eq!(format_bytes(0), "0 B");
    assert_eq!(format_bytes(512), "512 B");
    assert_eq!(format_bytes(1024), "1.0 KB");
    assert_eq!(format_bytes(1536), "1.5 KB");
    assert_eq!(format_bytes(1048576), "1.0 MB");
}

#[test]
fn test_validate_file_extension() {
    assert!(validate_file_extension("test.json", &["json", "yaml"]));
    assert!(validate_file_extension("test.JSON", &["json", "yaml"]));
    assert!(!validate_file_extension("test.txt", &["json", "yaml"]));
    assert!(!validate_file_extension("test", &["json", "yaml"]));
}

#[test]
fn test_sanitize_filename() {
    assert_eq!(sanitize_filename("valid_name.txt"), "valid_name.txt");
    assert_eq!(sanitize_filename("in<valid>name"), "in_valid_name");
    assert_eq!(sanitize_filename("  .hidden  "), "hidden");
    assert_eq!(sanitize_filename(""), "unnamed");
}

#[test]
fn test_truncate_string() {
    assert_eq!(truncate_string("hello", 10), "hello");
    assert_eq!(truncate_string("hello world", 8), "hello...");
    assert_eq!(truncate_string("hi", 2), "hi");
    assert_eq!(truncate_string("hi", 1), "...");
}

#[test]
fn test_string_hash() {
    let hash1 = string_hash("test");
    let hash2 = string_hash("test");
    let hash3 = string_hash("different");

    assert_eq!(hash1, hash2);
    assert_ne!(hash1, hash3);
}

#[test]
fn format_bytes_units_and_rounding() {
    assert_eq!(format_bytes(1023), "1023 B");
    assert_eq!(format_bytes(1280), "1.2 KB");
    assert_eq!(format_bytes(1331), "1.3 KB");
    assert_eq!(format_bytes(1073741824), "1.0 GB");
    assert_eq!(format_bytes(1099511627776), "1.0 TB");
    assert_eq!(format_bytes(1125899906842624), "1024.0 TB");
    assert_eq!(format_bytes(usize::MAX), format!("{:.1} TB", usize::MAX as f64 / 1099511627776.0));
    for b in [1u64, 1000, 1025, 4095, 123456, 999_999_999, 5_000_000_000_000, 9_007_199_254_740_993] {
        let size = b as usize;
        let mut f = size as f64;
        let mut unit = 0;
        let units = ["B", "KB", "MB", "GB", "TB"];
        while f >= 1024.0 && unit < 4 {
            f /= 1024.0;
            unit += 1;
        }
        let expected = if unit == 0 { format!("{} B", size) } else { format!("{:.1} {}", f, units[unit]) };
        assert_eq!(format_bytes(size), expected);
    }
}

#[test]
fn string_hash_exact_values() {
    assert_eq!(string_hash(""), 0);
    assert_eq!(string_hash("a"), 97);
    assert_eq!(string_hash("ab"), 97 * 31 + 98);
    let long = "x".repeat(100);
    let mut h: u32 = 0;
    for b in long.bytes() {
        h = h.wrapping_mul(31).wrapping_add(b as u32);
    }
    assert_eq!(string_hash(&long), h);
}

#[test]
fn file_extension_path_rules() {
    assert!(validate_file_extension("dir/archive.tar.gz", &["gz"]));
    assert!(!validate_file_extension(".hidden", &["hidden"]));
    assert!(validate_file_extension("..x", &["x"]));
    assert!(validate_file_extension("notes.md/.", &["md"]));
    assert!(!validate_file_extension("notes.md/..", &["md"]));
    assert!(validate_file_extension("a.b/", &["b"]));
    assert!(!validate_file_extension("", &[""]));
    assert!(validate_file_extension("name.", &[""]));
}

#[test]
fn sanitize_and_truncate_edges() {
    assert_eq!(sanitize_filename("a/b\\c|d?e*f:g\"h"), "a_b_c_d_e_f_g_h");
    assert_eq!(sanitize_filename(" . a . "), " a ");
    assert_eq!(sanitize_filename("..."), "unnamed");
    assert_eq!(truncate_string("abcdef", 4), "a...");
    assert_eq!(truncate_string("abcd", 3), "...");
    assert_eq!(truncate_string("héllo wörld", 6), "hé...");
}

#[test]
fn test_generate_ids() {
    let id1 = generate_id();
    let id2 = generate_id();
    assert_ne!(id1, id2);
    assert_eq!(id1.len(), 36); // UUID length

    let short_id = generate_short_id();
    assert_eq!(short_id.len(), 8);

    let timestamped = generate_timestamped_id(Some("test"));
    assert!(timestamped.starts_with("test_"));
}

#[test]
fn timestamped_ids_have_three_parts() {
    let plain = generate_timestamped_id(None);
    let parts: Vec<&str> = plain.split('_').collect();
    assert_eq!(parts.len(), 2);
    assert!(parts[0].parse::<i64>().is_ok());
    assert_eq!(parts[1].len(), 8);
    assert!(parts[1].chars().all(|c| c.is_ascii_hexdigit() && !c.is_ascii_uppercase()));
    let prefixed = generate_timestamped_id(Some("snap"));
    assert_eq!(prefixed.split('_').count(), 3);
}

#[test]
fn clock_readings_are_in_seconds_and_milliseconds() {
    let millis = current_timestamp_millis();
    let secs = current_timestamp_secs();
    assert!(millis > 0);
    assert!(secs > 0);
    assert!(millis > secs);
}

#[test]
fn truncated_text_fits_its_length() {
    for max_len in 3..15 {
        let r = truncate_string("hello wonderful world", max_len);
        assert!(r.len() <= max_len);
    }
    assert_eq!(truncate_string("héllo wörld", 6), "hé...");
    assert_eq!(truncate_string("héllo wörld", 6).len(), 6);
    assert_eq!(truncate_string("hi", 1), "...");
}

#[test]
fn string_hash_of_joined_texts() {
    assert_eq!(string_hash(""), 0);
    assert_eq!(string_hash("ab"), 3105);
    assert_eq!(string_hash("test"), 3556498);
    for (a, b) in [("hello", " world"), ("", "x"), ("héllo", "wörld"), ("a", "")] {
        let joined = format!("{}{}", a, b);
        let expected = string_hash(a)
            .wrapping_mul(31u32.wrapping_pow(b.len() as u32))
            .wrapping_add(string_hash(b));
        assert_eq!(string_hash(&joined), expected);
    }
}

#[test]
fn id_formatters() {
    assert_eq!(block_id_text(255, 16), "block_ff_10");
    assert_eq!(block_id_text(0, 0), "block_0_0");
    assert_eq!(timestamped_id_text(Some("snapshot"), 12, "abcd1234"), "snapshot_12_abcd1234");
    assert_eq!(timestamped_id_text(None, -5, "x"), "-5_x");
}
