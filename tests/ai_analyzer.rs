use kernel_core::text_analyzer::{TextAnalyzer, TextCategory};

#[test]
fn test_text_analyzer_creation() {
    let analyzer = TextAnalyzer::new();
    assert!(!analyzer.tech_keywords.is_empty());
    assert!(!analyzer.creative_keywords.is_empty());
    assert!(!analyzer.data_keywords.is_empty());
}

#[test]
fn test_technical_text_analysis() {
    let analyzer = TextAnalyzer::new();

    let tech_texts = vec![
        "This kernel is written in Rust programming language",
        "The memory management system uses paging and virtual memory",
        "CPU scheduling algorithms optimize system performance",
        "Operating system kernel development requires careful design",
    ];

    for text in tech_texts {
        let category = analyzer.analyze_text(text);
        assert_eq!(category, TextCategory::Technical,
                  "Text '{}' should be classified as Technical", text);
    }
}

#[test]
fn test_creative_text_analysis() {
    let analyzer = TextAnalyzer::new();

    let creative_texts = vec![
        "Creating beautiful user interfaces requires design skills",
        "Digital art and music production tools are essential",
        "Writing compelling stories engages readers emotionally",
        "Video editing software enables creative expression",
    ];

    for text in creative_texts {
        let category = analyzer.analyze_text(text);
        assert_eq!(category, TextCategory::Creative,
                  "Text '{}' should be classified as Creative", text);
    }
}

#[test]
fn test_data_text_analysis() {
    let analyzer = TextAnalyzer::new();

    let data_texts = vec![
        "Data analysis shows interesting patterns in user behavior",
        "Statistical models help predict future trends",
        "Database queries retrieve information efficiently",
        "Chart visualization makes data more understandable",
    ];

    for text in data_texts {
        let category = analyzer.analyze_text(text);
        assert_eq!(category, TextCategory::Data,
                  "Text '{}' should be classified as Data", text);
    }
}

#[test]
fn test_keyword_detection() {
    let analyzer = TextAnalyzer::new();

    assert_eq!(analyzer.analyze_text("rust code compilation"), TextCategory::Technical);
    assert_eq!(analyzer.analyze_text("kernel memory management"), TextCategory::Technical);
    assert_eq!(analyzer.analyze_text("cpu system optimization"), TextCategory::Technical);

    assert_eq!(analyzer.analyze_text("design art creation"), TextCategory::Creative);
    assert_eq!(analyzer.analyze_text("music video production"), TextCategory::Creative);
    assert_eq!(analyzer.analyze_text("story writing skills"), TextCategory::Creative);

    assert_eq!(analyzer.analyze_text("data analysis statistics"), TextCategory::Data);
    assert_eq!(analyzer.analyze_text("database query search"), TextCategory::Data);
    assert_eq!(analyzer.analyze_text("chart graph visualization"), TextCategory::Data);
}

#[test]
fn test_case_insensitive_matching() {
    let analyzer = TextAnalyzer::new();

    assert_eq!(analyzer.analyze_text("RUST programming"), TextCategory::Technical);
    assert_eq!(analyzer.analyze_text("Design ART"), TextCategory::Creative);
    assert_eq!(analyzer.analyze_text("DATA analysis"), TextCategory::Data);
}

#[test]
fn test_feature_extraction() {
    let analyzer = TextAnalyzer::new();

    let text = "Hello, world! This is a test with 123 numbers.";
    let features = analyzer.extract_features(text);

    assert_eq!(features.char_count, text.chars().count());
    assert_eq!(features.word_count, 9);
    assert!(features.has_numbers);
    assert!(features.has_punctuation);
}

#[test]
fn test_empty_text() {
    let analyzer = TextAnalyzer::new();

    let features = analyzer.extract_features("");
    assert_eq!(features.char_count, 0);
    assert_eq!(features.word_count, 0);
    assert!(!features.has_numbers);
    assert!(!features.has_punctuation);
}

#[test]
fn test_text_without_keywords_defaults_to_data() {
    let analyzer = TextAnalyzer::new();

    let category = analyzer.analyze_text("This is some generic text without specific keywords");
    assert_eq!(category, TextCategory::Data);
}

#[test]
fn test_mixed_keywords_priority() {
    let analyzer = TextAnalyzer::new();

    let tech_text = analyzer.analyze_text("code design data analysis");
    assert_eq!(tech_text, TextCategory::Technical);

    let creative_text = analyzer.analyze_text("design art data");
    assert_eq!(creative_text, TextCategory::Creative);
}

#[test]
fn text_longer_than_buffer_is_data() {
    let analyzer = TextAnalyzer::new();
    let long = "kernel ".repeat(40);
    assert_eq!(analyzer.analyze_text(&long), TextCategory::Data);
}

#[test]
fn features_count_unicode_characters_and_spaces() {
    let analyzer = TextAnalyzer::new();
    let f = analyzer.extract_features("  é\tß  x ");
    assert_eq!(f.char_count, 9);
    assert_eq!(f.word_count, 3);
    assert!(!f.has_numbers);
    assert!(!f.has_punctuation);
}
