use gameday::capture::{buffer_to_ansi, buffer_to_html, color_css, CellView, Ink};

fn cell(sym: &str, fg: Ink, bg: Ink, bold: bool) -> CellView {
    CellView { symbol: sym.into(), fg, bg, bold }
}

#[test]
fn colors_read_as_css() {
    assert_eq!(color_css(&Ink::Reset), "");
    assert_eq!(color_css(&Ink::Rgb(255, 176, 0)), "#ffb000");
    assert_eq!(color_css(&Ink::Rgb(0, 10, 171)), "#000aab");
    assert_eq!(color_css(&Ink::Named("lightblue".into())), "lightblue");
}

#[test]
fn ansi_resets_each_cell_and_each_row() {
    let rows = vec![
        vec![cell("2", Ink::Rgb(255, 176, 0), Ink::Reset, true), cell("", Ink::Reset, Ink::Reset, false)],
        vec![cell(" ", Ink::Reset, Ink::Rgb(1, 2, 3), false)],
    ];
    assert_eq!(
        buffer_to_ansi(&rows),
        "\x1b[0m\x1b[0m\x1b[1m\x1b[38;2;255;176;0m2\x1b[0m\n\x1b[0m\x1b[48;2;1;2;3m \x1b[0m\n"
    );
    assert_eq!(buffer_to_ansi(&vec![]), "\x1b[0m");
}

#[test]
fn html_styles_colored_cells_and_escapes_symbols() {
    let rows = vec![vec![
        cell("<", Ink::Reset, Ink::Reset, false),
        cell("█", Ink::Rgb(0, 0, 255), Ink::Named("black".into()), true),
    ]];
    let page = buffer_to_html(&rows, "", "#101010", "#eeeeee");
    assert!(page.starts_with("<!DOCTYPE html><html><head><meta charset=\"utf-8\"><title>gameday board</title>"));
    assert!(page.contains("html,body{margin:0;background:#101010;}"));
    assert!(page.contains("background:#101010;color:#eeeeee;"));
    assert!(page.ends_with(
        "<body><pre>&lt;<span style=\"color:#0000ff;background:black;font-weight:700;\">█</span>\n</pre></body></html>\n"
    ));
}
