use models_tui::benchmarks::pickers::{column_picker_lines, column_picker_size, sort_picker_lines, sort_picker_size};
use models_tui::benchmarks::schema::{MetricDef, MetricKind, SortKey, SourceFile, SourceMeta};

fn file() -> SourceFile {
    let metric = |label: &str| MetricDef {
        id: label.to_lowercase(),
        label: label.into(),
        short_label: None,
        kind: MetricKind::Index,
        group: "G".into(),
        higher_is_better: true,
        last_updated: None,
        description: None,
    };
    SourceFile {
        source: SourceMeta {
            id: "t".into(),
            name: "T".into(),
            url: "https://example.com".into(),
            fetched_at: "2026-06-10T00:00:00+00:00".into(),
            verified: true,
        },
        metrics: vec![metric("Intelligence Index"), metric("Output Speed")],
        models: vec![],
    }
}

#[test]
fn sort_picker_rows_mark_active_key() {
    let f = file();
    assert_eq!(
        sort_picker_lines(&f, SortKey::Metric(1), true),
        vec![" Release Date", " Name", " Intelligence Index", " Output Speed \u{25bc}"]
    );
    assert_eq!(sort_picker_lines(&f, SortKey::ReleaseDate, false)[0], " Release Date \u{25b2}");
    assert_eq!(sort_picker_size(4, 100, 40), (30, 6));
    assert_eq!(sort_picker_size(4, 20, 2), (20, 3));
    assert_eq!(sort_picker_size(40, 100, 30), (30, 30));
}

#[test]
fn column_picker_rows_and_size() {
    let f = file();
    assert_eq!(
        column_picker_lines(&f, &vec![1], 17),
        vec!["[ ] Intelli...".to_string(), "[x] Output ...".to_string()]
    );
    assert_eq!(column_picker_lines(&f, &vec![0, 1], 50)[0], "[x] Intelligence Index");
    assert_eq!(column_picker_size(2, 100, 40), (50, 4));
    assert_eq!(column_picker_size(60, 30, 20), (26, 16));
    assert_eq!(column_picker_size(2, 3, 3), (0, 0));
}
