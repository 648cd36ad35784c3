use hybrid_screen_capture::capture_core::performance_analysis::PerformanceAnalysis;

#[test]
fn test_performance_analysis() {
    let analysis = PerformanceAnalysis::new(1920, 1080, 30, 10);
    assert_eq!(analysis.total_pixels(), 1920 * 1080 * 30 * 10);
    assert_eq!(analysis.memory_per_frame(), 1920 * 1080 * 4);
    assert!(analysis.conversion_operations_saved() > 0);
    assert!(analysis.allocations_saved() > 0);
}

#[test]
fn test_performance_report() {
    let analysis = PerformanceAnalysis::new(1920, 1080, 60, 5);
    let report = analysis.generate_report();
    assert!(report.contains("1920x1080"));
    assert!(report.contains("60fps"));
    assert!(report.contains("Performance Improvements"));
}

#[test]
fn performance_totals_follow_the_pixel_count() {
    let a = PerformanceAnalysis::new(1280, 720, 25, 4);
    let pixels = 1280u64 * 720 * 25 * 4;
    assert_eq!(a.total_pixels(), pixels);
    assert_eq!(a.total_memory_transfer(), pixels * 4);
    assert_eq!(a.conversion_operations_saved(), pixels * 10);
    assert_eq!(a.allocations_saved(), 100);
    assert_eq!(a.memory_per_frame(), 1280 * 720 * 4);
}

#[test]
fn performance_report_figures() {
    let analysis = PerformanceAnalysis::new(1920, 1080, 30, 10);
    let report = analysis.generate_report();
    assert!(report.starts_with("Zero-Copy Performance Analysis\n"));
    assert!(report.contains("Configuration: 1920x1080 @ 30fps for 10s\n"));
    assert!(report.contains("Total Frames: 300\n"));
    assert!(report.contains("Total Pixels: 622080000\n"));
    assert!(report.contains("Memory per Frame: 8294400 bytes (8.3 MB)\n"));
    assert!(report.contains("Total Memory Transfer: 2.5 GB\n"));
    assert!(report.contains("Operations Saved: 6220800000 CPU operations"));
    assert!(report.contains("CPU Reduction: ~60.0% (estimated)"));
    assert!(report.contains("Memory Copy Elimination: 1.9 GB of pixel copying"));
    assert!(report.contains("Allocations Saved: 300 buffer allocations/deallocations"));
    assert!(report.contains("Memory Pressure Reduction: 8294400 bytes per frame"));
    assert!(report.ends_with("These are theoretical estimates based on eliminated operations."));
    let expected_mb = format!("{:.1}", 8294400f64 / 1_000_000.0);
    assert!(report.contains(&format!("({} MB)", expected_mb)));
}

#[test]
fn frames_larger_than_four_gigabytes_are_counted() {
    let a = PerformanceAnalysis::new(70_000, 70_000, 1, 1);
    assert_eq!(a.memory_per_frame(), 19_600_000_000);
    assert_eq!(PerformanceAnalysis::new(1920, 1080, 30, 10).memory_per_frame(), 8_294_400);
    let report = a.generate_report();
    assert!(report.contains("Memory per Frame: 19600000000 bytes (19600.0 MB)"));
}
