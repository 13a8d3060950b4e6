use shimmy::util::memory::MemoryStatus;

#[test]
fn test_memory_availability_logic() {
    // 16 GB installed, 12 GB available, 10 GB required: sufficient, and no offloading needed.
    let recommendations = MemoryStatus::Sufficient.get_recommendations(false);
    assert!(recommendations.iter().any(|r| r.contains("Sufficient")));
}

#[test]
fn test_insufficient_memory_recommendations() {
    // 8 GB installed, 6 GB available, 12 GB required: insufficient.
    let recommendations = MemoryStatus::Insufficient.get_recommendations(false);
    assert!(recommendations.iter().any(|r| r.contains("smaller model")));
    assert!(recommendations.iter().any(|r| r.contains("Add more RAM")));
}

#[test]
fn advice_is_complete_and_in_order() {
    assert_eq!(
        MemoryStatus::Sufficient.get_recommendations(false),
        vec!["✅ Sufficient memory available".to_string()]
    );
    assert_eq!(
        MemoryStatus::Tight.get_recommendations(true),
        vec![
            "⚠️  Close other applications to free memory".to_string(),
            "💡 Consider restarting to free cached memory".to_string(),
            "🧠 MoE CPU offloading would help (currently disabled - Issue #108)".to_string(),
        ]
    );
    assert_eq!(MemoryStatus::Insufficient.get_recommendations(true).len(), 5);
}
