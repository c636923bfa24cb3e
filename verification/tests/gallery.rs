use gameday::gallery::{board_stems, gallery_stems, html_escape, DUMP_COLS, DUMP_ROWS};
use gameday::theme::BUILTIN_NAMES;

#[test]
fn every_builtin_theme_has_a_board_capture() {
    let stems = board_stems();
    let names: Vec<&str> = stems.iter().map(|(n, _)| *n).collect();
    assert_eq!(names, BUILTIN_NAMES.to_vec());
    for (name, stem) in stems {
        assert_eq!(stem, format!("board-{name}"));
    }
}

#[test]
fn gallery_stems_are_the_promised_fixed_names() {
    let stems = gallery_stems();
    assert_eq!(
        stems,
        [
            "board-broadcast",
            "board-studio",
            "board-gruvbox",
            "board-daygame",
            "board-narrow",
            "board-sixty",
            "tv",
            "cut-full",
            "cut-band",
            "zoom",
            "plays-feed",
            "standings",
            "config",
            "filter",
            "theme-picker",
            "help",
            "home-live",
            "offline",
            "stale",
            "config-error",
            "nudge-seq-1",
            "nudge-seq-2",
            "nudge-seq-3",
        ],
        "gallery stems are a stable contract for other tasks"
    );
}

#[test]
fn html_escape_replaces_the_three_markup_chars() {
    assert_eq!(html_escape("a < b && c > d"), "a &lt; b &amp;&amp; c &gt; d");
    assert_eq!(html_escape("plain ★"), "plain ★");
    assert_eq!((DUMP_COLS, DUMP_ROWS), (120, 36));
}
