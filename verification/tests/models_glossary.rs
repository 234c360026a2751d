use models_tui::models::glossary::{build_glossary_lines, section_header_line, ModelsGlossaryLine};

#[test]
fn section_header_pads_to_width() {
    let h = section_header_line(30, "Limits");
    assert_eq!(h, format!("\u{2500}\u{2500} Limits {}", "\u{2500}".repeat(20)));
    assert_eq!(h.chars().count(), 30);
}

#[test]
fn section_header_never_truncates_title() {
    assert_eq!(section_header_line(5, "Limits"), "\u{2500}\u{2500} Limits ");
    assert_eq!(section_header_line(0, ""), "\u{2500}\u{2500}  ");
}

#[test]
fn models_glossary_layout() {
    let lines = build_glossary_lines(40);
    // five section rules, seventeen entries of three lines, minus the trailing blank
    assert_eq!(lines.len(), 5 + 17 * 3 - 1);
    assert_eq!(
        lines[0],
        ModelsGlossaryLine::Header(format!("\u{2500}\u{2500} List column (RTFO) {}", "\u{2500}".repeat(18)))
    );
    assert_eq!(lines[1], ModelsGlossaryLine::Term("R T F O".to_string()));
    assert_eq!(lines[3], ModelsGlossaryLine::Blank);
    assert_eq!(
        lines[4],
        ModelsGlossaryLine::Header(format!("\u{2500}\u{2500} Capabilities {}", "\u{2500}".repeat(24)))
    );
    assert_eq!(
        lines.last(),
        Some(&ModelsGlossaryLine::Desc(
            "Maximum input tokens accepted and maximum output tokens generated.".to_string()
        ))
    );
    let headers = lines.iter().filter(|l| matches!(l, ModelsGlossaryLine::Header(_))).count();
    assert_eq!(headers, 5);
}
