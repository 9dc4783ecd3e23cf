use diktovani::bubble::{bubble_content, BubbleState};
use diktovani::icons::{
    draw_checkmark_icon, draw_play_triangle, draw_progress_icon, draw_stroke, load_microphone_icon,
    set_pixel, Color, IconImage, Point, MIC_HEIGHT, MIC_WIDTH,
};
use diktovani::languages::{build_language_menu, label_for, language_menu, Language, MenuEntry};
use diktovani::palette::{color_with_id, icon_colors};
use diktovani::progress::ModelDownloadProgress;

fn alpha(icon: &IconImage, x: usize, y: usize) -> u8 {
    icon.rgba[(y * icon.width as usize + x) * 4 + 3]
}

#[test]
fn a_pixel_is_set() {
    let mut rgba = vec![0u8; 16];
    set_pixel(&mut rgba, 2, 1, 1, Color { r: 1, g: 2, b: 3, a: 4 });
    assert_eq!(rgba, vec![0, 0, 0, 0, 0, 0, 0, 0, 0, 0, 0, 0, 1, 2, 3, 4]);
}

#[test]
fn a_stroke_stays_in_the_picture() {
    let mut rgba = vec![0u8; 4 * 4 * 4];
    draw_stroke(&mut rgba, 4, 0, 3, 1);
    let dark: Vec<usize> = (0..16).filter(|p| rgba[p * 4 + 3] == 255).collect();
    assert_eq!(dark, vec![8, 9, 12, 13]);
}

#[test]
fn a_stroke_outside_does_nothing() {
    let mut rgba = vec![7u8; 12];
    draw_stroke(&mut rgba, 4, 1, 5, 2);
    draw_stroke(&mut rgba, 4, 9, 0, 2);
    assert_eq!(rgba, vec![7u8; 12]);
    draw_stroke(&mut rgba, 4, 0, 0, 1);
    assert_eq!(rgba, vec![0, 0, 0, 255, 0, 0, 0, 255, 7, 7, 7, 7]);
}

#[test]
fn a_small_picture_has_no_triangle() {
    let mut rgba: Vec<u8> = Vec::new();
    draw_play_triangle(&mut rgba, 11);
    draw_play_triangle(&mut rgba, 13);
    assert!(rgba.is_empty());
}

#[test]
fn the_check_mark_is_drawn() {
    let icon = draw_checkmark_icon();
    assert_eq!((icon.width, icon.height, icon.rgba.len()), (32, 32, 4096));
    let mut expected = vec![0u8; 4096];
    let mut stroke = |x: usize, y: usize| {
        for py in y - 2..=y + 2 {
            for px in x - 2..=x + 2 {
                expected[(py * 32 + px) * 4 + 3] = 255;
            }
        }
    };
    for k in 0..6 {
        stroke(8 + k, 17 + k);
    }
    for k in 0..12 {
        stroke(13 + k, 22 - k);
    }
    assert_eq!(icon.rgba, expected);
}

#[test]
fn the_play_triangle_is_drawn() {
    let mut rgba = vec![0u8; 4096];
    draw_play_triangle(&mut rgba, 32);
    let mut expected = vec![0u8; 4096];
    for y in 11usize..=21 {
        let t = ((y as f32 - 16.0).abs() / 5.0).min(1.0);
        let end = (13.0 + 8.0 * (1.0 - t)).round() as usize;
        for x in 13..=end {
            expected[(y * 32 + x) * 4 + 3] = 255;
        }
    }
    assert_eq!(rgba, expected);
}

#[test]
fn progress_is_drawn_over_the_ring() {
    let ring = vec![Point { x: 1, y: 0 }, Point { x: 2, y: 0 }];
    let reached = vec![Point { x: 2, y: 0 }];
    let icon = draw_progress_icon(0, false, &ring, &reached);
    assert_eq!((alpha(&icon, 1, 0), alpha(&icon, 2, 0)), (60, 60));
    let icon = draw_progress_icon(50, false, &ring, &reached);
    assert_eq!((alpha(&icon, 1, 0), alpha(&icon, 2, 0)), (60, 255));
    assert_eq!(alpha(&icon, 13, 16), 0);
    let icon = draw_progress_icon(50, true, &ring, &reached);
    assert_eq!(alpha(&icon, 13, 16), 255);
}

#[test]
fn full_progress_fills_the_ring() {
    let ring = vec![Point { x: 5, y: 4 }, Point { x: 31, y: 31 }, Point { x: 13, y: 16 }];
    let first = draw_progress_icon(0, false, &ring, &ring);
    let last = draw_progress_icon(100, false, &ring, &[]);
    let sent = draw_progress_icon(100, true, &ring, &[]);
    let mut triangle = last.rgba.clone();
    draw_play_triangle(&mut triangle, 32);
    assert_eq!(sent.rgba, triangle);
    let mut bright = 0;
    for y in 0..32 {
        for x in 0..32 {
            let expected = if alpha(&first, x, y) == 60 { 255 } else { 0 };
            assert_eq!(alpha(&last, x, y), expected);
            bright += usize::from(expected == 255);
        }
    }
    assert_eq!(bright, 3);
}

#[test]
fn the_microphone_has_its_color() {
    let coverage: Vec<u8> = (0..MIC_WIDTH * MIC_HEIGHT).map(|p| (p % 256) as u8).collect();
    let icon = load_microphone_icon(Some((10, 20, 30)), &coverage);
    assert_eq!((icon.width, icon.height), (55, 72));
    assert_eq!(icon.rgba[..8], [10, 20, 30, 0, 10, 20, 30, 1]);
    let icon = load_microphone_icon(None, &coverage);
    assert_eq!(icon.rgba[4..8], [0, 0, 0, 1]);
}

#[test]
fn the_bubble_says_what_happens() {
    let content = bubble_content(BubbleState::Recording);
    assert_eq!(content.symbol, "checkmark.circle.fill");
    assert_eq!(content.title, "Nahrávám…");
    assert_eq!(
        content.info,
        "Klikni na háček ✓ v liště nebo stiskni Fn pro spuštění přepisu."
    );
    assert_eq!(content.button, "Zrušit");
    assert_eq!(content.percent, None);
    let content = bubble_content(BubbleState::Transcribing { submit: false });
    assert_eq!(content.symbol, "waveform");
    assert_eq!(content.title, "Přepisuji…");
    let content = bubble_content(BubbleState::Transcribing { submit: true });
    assert_eq!(content.symbol, "play.fill");
    assert_eq!(content.title, "Po dokončení rovnou odešlu");
}

#[test]
fn the_bubble_shows_a_download() {
    let progress = ModelDownloadProgress {
        percent: Some(45),
        downloaded_bytes: 1,
        downloaded_megabytes: 0,
        eta: Some(90),
    };
    let content = bubble_content(BubbleState::DownloadingModel { progress });
    assert_eq!(content.info, "45 % · zbývá 1:30");
    assert_eq!(content.button, "Skrýt dialog");
    assert_eq!(content.percent, Some(45));
}

fn languages() -> Vec<Language> {
    [
        ("en", "Angličtina"),
        ("cs", "Čeština"),
        ("sk", "Slovenština"),
        ("de", "Němčina"),
        ("x1", "Albánština"),
        ("x2", "Němčina"),
        ("hr", "Chorvatština"),
    ]
    .iter()
    .map(|(code, label)| Language { code: code.to_string(), label: label.to_string() })
    .collect()
}

#[test]
fn languages_are_sorted_by_name() {
    let table = languages();
    let menu = language_menu(&table);
    assert_eq!(menu, vec![4, 6, 3, 5, 2]);
    let mut expected: Vec<usize> = vec![2, 3, 4, 5, 6];
    expected.sort_by(|a, b| table[*a].label.cmp(&table[*b].label));
    assert_eq!(menu, expected);
}

#[test]
fn the_language_menu_has_two_parts() {
    let lines: Vec<String> = build_language_menu(&languages())
        .into_iter()
        .map(|entry| match entry {
            MenuEntry::Item { code, label } => format!("{code} {label}"),
            MenuEntry::Separator => "-".to_string(),
        })
        .collect();
    assert_eq!(
        lines,
        vec![
            "cs Čeština",
            "en Angličtina",
            "-",
            "x1 Albánština",
            "hr Chorvatština",
            "de Němčina",
            "x2 Němčina",
            "sk Slovenština",
        ]
    );
    assert_eq!(build_language_menu(&vec![]).len(), 3);
}

#[test]
fn languages_have_names() {
    assert_eq!(label_for(&languages(), "cs"), "Čeština");
    assert_eq!(label_for(&languages(), "zz"), "zz");
}

#[test]
fn colors_are_found() {
    assert_eq!(icon_colors().len(), 7);
    let mint = color_with_id("mint").unwrap();
    assert_eq!((mint.label, mint.red, mint.green, mint.blue), ("Mátová", 710, 918, 843));
    assert!(color_with_id("").is_none());
    assert!(color_with_id("plaid").is_none());
}
