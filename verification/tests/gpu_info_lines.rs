use flovenet::gpu_info::{classify_info_line, GpuInfoLine};

fn model(line: &str) -> Option<String> {
    match classify_info_line(line) {
        GpuInfoLine::Model(m) => Some(m),
        _ => None,
    }
}

fn memory(line: &str) -> Option<Option<String>> {
    match classify_info_line(line) {
        GpuInfoLine::VideoMemory(w) => Some(w),
        _ => None,
    }
}

#[test]
fn model_line_is_trimmed() {
    assert_eq!(model("Model: \t NVIDIA GeForce RTX 4090  "), Some("NVIDIA GeForce RTX 4090".to_string()));
}

#[test]
fn repeated_model_labels_are_all_removed() {
    assert_eq!(model("Model:Model: RTX"), Some("RTX".to_string()));
}

#[test]
fn empty_model_line() {
    assert_eq!(model("Model:"), Some(String::new()));
}

#[test]
fn memory_line_gives_first_word() {
    assert_eq!(memory("Video Memory: 24576 MiB"), Some(Some("24576".to_string())));
}

#[test]
fn memory_field_stops_at_next_colon() {
    assert_eq!(memory("Video Memory:  8192:extra"), Some(Some("8192".to_string())));
}

#[test]
fn memory_line_without_amount() {
    assert_eq!(memory("Video Memory:   "), Some(None));
}

#[test]
fn other_lines() {
    assert!(matches!(classify_info_line("IRQ: 42"), GpuInfoLine::Other));
    assert!(matches!(classify_info_line(" Model: leading blank"), GpuInfoLine::Other));
    assert!(matches!(classify_info_line(""), GpuInfoLine::Other));
    assert!(matches!(classify_info_line("Video Memory"), GpuInfoLine::Other));
}
