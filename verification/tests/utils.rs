use pgmoneta_mcp::utils::Utility;

fn by_floats(size: u64) -> String {
    const KB: u64 = 1024;
    const MB: u64 = KB * 1024;
    const GB: u64 = MB * 1024;
    const TB: u64 = GB * 1024;
    if size < KB {
        format!("{size} B")
    } else if size < MB {
        format!("{:.2} KB", size as f64 / KB as f64)
    } else if size < GB {
        format!("{:.2} MB", size as f64 / MB as f64)
    } else if size < TB {
        format!("{:.2} GB", size as f64 / GB as f64)
    } else {
        format!("{:.2} TB", size as f64 / TB as f64)
    }
}

#[test]
fn file_size_below_one_kilobyte_is_plain_bytes() {
    assert_eq!(Utility::format_file_size(0), "0 B");
    assert_eq!(Utility::format_file_size(7), "7 B");
    assert_eq!(Utility::format_file_size(512), "512 B");
    assert_eq!(Utility::format_file_size(1023), "1023 B");
}

#[test]
fn file_size_picks_the_largest_fitting_unit() {
    assert_eq!(Utility::format_file_size(1024), "1.00 KB");
    assert_eq!(Utility::format_file_size(1536), "1.50 KB");
    assert_eq!(Utility::format_file_size(1024 * 1024), "1.00 MB");
    assert_eq!(Utility::format_file_size(5 * 1024 * 1024 + 512 * 1024), "5.50 MB");
    assert_eq!(Utility::format_file_size(1024 * 1024 * 1024), "1.00 GB");
    assert_eq!(Utility::format_file_size(3 * 1024 * 1024 * 1024 * 1024), "3.00 TB");
    assert_eq!(Utility::format_file_size(1048575), "1024.00 KB");
    assert_eq!(Utility::format_file_size(u64::MAX), "16777216.00 TB");
}

#[test]
fn file_size_rounds_a_tie_to_the_even_hundredth() {
    // 1029.12 / 1024 is no tie, 1285.12 neither; 1024 + 128 * k / 25 is one
    // whenever the fraction of a hundredth is exactly one half.
    assert_eq!(Utility::format_file_size(2688), "2.62 KB");
    assert_eq!(Utility::format_file_size(2688), by_floats(2688));
    assert_eq!(Utility::format_file_size(1157), by_floats(1157));
    assert_eq!(Utility::format_file_size(1162), by_floats(1162));
}

#[test]
fn file_size_agrees_with_double_precision_division() {
    let mut size: u64 = 1;
    let mut n: u64 = 0;
    while n < 200_000 {
        assert_eq!(Utility::format_file_size(size), by_floats(size), "size {size}");
        assert_eq!(Utility::format_file_size(n), by_floats(n), "size {n}");
        size = size
            .wrapping_mul(6364136223846793005)
            .wrapping_add(1442695040888963407);
        n += 1;
    }
}

#[test]
fn file_size_agrees_with_double_precision_near_powers_of_two() {
    let mut shift: u32 = 10;
    while shift < 64 {
        let base: u64 = 1u64 << shift;
        let mut delta: u64 = 0;
        while delta < 3000 {
            let below = base - delta;
            let above = base.wrapping_add(delta);
            assert_eq!(Utility::format_file_size(below), by_floats(below), "size {below}");
            assert_eq!(Utility::format_file_size(above), by_floats(above), "size {above}");
            delta += 1;
        }
        shift += 1;
    }
    let mut delta: u64 = 0;
    while delta < 5000 {
        let size = u64::MAX - delta;
        assert_eq!(Utility::format_file_size(size), by_floats(size), "size {size}");
        delta += 1;
    }
}
