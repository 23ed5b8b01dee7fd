use lit_bit_core::safety_check::unsafe_total_fits;
use lit_bit_core::bench::perf::{context_switch_count, parse_i32, perf_counter_text};
use lit_bit_core::safety_check::{check_packages, PackageUnsafety, SafetyVerdict};

fn package(name: &str, counts: [u64; 5]) -> PackageUnsafety {
    PackageUnsafety {
        name: name.to_string(),
        functions: counts[0],
        exprs: counts[1],
        impls: counts[2],
        traits: counts[3],
        methods: counts[4],
    }
}

#[test]
fn clean_package_passes() {
    let v = check_packages(&vec![package("tokio", [3, 9, 1, 0, 2]), package("lit-bit-core", [0; 5])]);
    assert_eq!(v, SafetyVerdict::Clean);
    assert!(!v.is_failure());
    assert_eq!(v.message(), "✅ lit-bit-core contains no unsafe code (used: 0)");
}

#[test]
fn unsafe_usage_fails_with_counts() {
    let v = check_packages(&vec![package("lit-bit-core", [1, 2, 0, 0, 4])]);
    assert_eq!(v, SafetyVerdict::UnsafeCode { total: 7, functions: 1, exprs: 2, impls: 0, traits: 0, methods: 4 });
    assert!(v.is_failure());
    assert_eq!(
        v.message(),
        "❌ lit-bit-core uses unsafe code! (7 total)\n  Functions: 1\n  Expressions: 2\n  Impls: 0\n  Traits: 0\n  Methods: 4"
    );
}

#[test]
fn only_first_matching_package_counts() {
    let v = check_packages(&vec![package("lit-bit-core", [0; 5]), package("lit-bit-core", [5, 5, 5, 5, 5])]);
    assert_eq!(v, SafetyVerdict::Clean);
}

#[test]
fn missing_package_fails() {
    let v = check_packages(&vec![package("lit-bit-bench", [0; 5])]);
    assert_eq!(v, SafetyVerdict::PackageMissing);
    assert!(v.is_failure());
    assert_eq!(v.message(), "❌ lit-bit-core not found in geiger report!");
    assert_eq!(check_packages(&vec![]), SafetyVerdict::PackageMissing);
}

#[test]
fn perf_counters_are_read_from_csv() {
    let stats = "1234567,,instructions,1000,100.00,,\n 890 ,,cycles,1000,100.00,,\r\n12,,cache-misses:u,5,1\n3,,context-switches,1000,100.00,,\n";
    assert_eq!(perf_counter_text(stats, "instructions").as_deref(), Some("1234567"));
    assert_eq!(perf_counter_text(stats, "cycles").as_deref(), Some("890"));
    assert_eq!(perf_counter_text(stats, "cache-misses"), None);
    assert_eq!(perf_counter_text(stats, "context-switches").as_deref(), Some("3"));
}

#[test]
fn perf_counter_last_line_wins_and_short_lines_are_skipped() {
    let stats = "1,,cycles\n2,cycles\n<not counted>,,cycles , x\n";
    assert_eq!(perf_counter_text(stats, "cycles").as_deref(), Some("<not counted>"));
    assert_eq!(perf_counter_text("", "cycles"), None);
    assert_eq!(perf_counter_text("5,,cycles", "cycles").as_deref(), Some("5"));
}

#[test]
fn overflowing_unsafe_counts_are_detected() {
    assert!(unsafe_total_fits(&vec![package("lit-bit-core", [1, 2, 3, 4, 5])]));
    assert!(!unsafe_total_fits(&vec![package("lit-bit-core", [u64::MAX, 1, 0, 0, 0])]));
    assert!(unsafe_total_fits(&vec![package("other", [u64::MAX, 1, 0, 0, 0])]));
}

#[test]
fn parse_i32_reads_like_std() {
    assert_eq!(parse_i32("42"), Some(42));
    assert_eq!(parse_i32("+7"), Some(7));
    assert_eq!(parse_i32("-2147483648"), Some(i32::MIN));
    assert_eq!(parse_i32("2147483647"), Some(i32::MAX));
    assert_eq!(parse_i32("2147483648"), None);
    assert_eq!(parse_i32("-2147483649"), None);
    assert_eq!(parse_i32("99999999999999999999"), None);
    assert_eq!(parse_i32(""), None);
    assert_eq!(parse_i32("-"), None);
    assert_eq!(parse_i32("12a"), None);
    assert_eq!(parse_i32(" 1"), None);
    assert_eq!(parse_i32("1.5"), None);
    for text in ["0", "-0", "+", "123456", "-98765", "00012", "x"] {
        assert_eq!(parse_i32(text), text.parse::<i32>().ok());
    }
}

#[test]
fn context_switch_count_reads_the_counter() {
    let stats = "1000,,instructions,1,100.00,,\n12,,context-switches,1,100.00,,\n";
    assert_eq!(context_switch_count(stats), 12);
    assert_eq!(context_switch_count("<not supported>,,context-switches,0,100.00,,\n"), 0);
    assert_eq!(context_switch_count("5,,cycles,1,100.00,,\n"), 0);
    assert_eq!(context_switch_count("-1,,context-switches,1,100.00,,\n"), u64::MAX);
}
