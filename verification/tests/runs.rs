use abolishpdfs::model::{Color, ReconstructionDecision, TextFailureReason};
use abolishpdfs::text::runs::{glyph_runs, run_text};

#[derive(Clone)]
struct Glyph {
    unicode: Option<char>,
    x: f32,
    y: f32,
    font_size: f32,
    fill: Option<Color>,
}

fn glyph(character: char, x: f32, y: f32) -> Glyph {
    Glyph { unicode: Some(character), x, y, font_size: 12.0, fill: Some(Color::black()) }
}

/// Whether `next` continues the unrotated run from `first` to `previous`:
/// same style, same baseline, and a forward advance of at most two ems.
fn continues(glyphs: &[Glyph], first: usize, previous: usize, next: usize) -> bool {
    let (first, previous, next) = (&glyphs[first], &glyphs[previous], &glyphs[next]);
    if first.fill != next.fill || (first.font_size - next.font_size).abs() > first.font_size.abs().max(1.0) * 0.05 {
        return false;
    }
    if (next.y - first.y).abs() > 0.5 {
        return false;
    }
    let advance = next.x - previous.x;
    advance >= -1e-3 && advance <= first.font_size * 2.0
}

fn runs(decision: ReconstructionDecision, glyphs: &[Glyph]) -> Vec<String> {
    let unicode: Vec<Option<char>> = glyphs.iter().map(|glyph| glyph.unicode).collect();
    glyph_runs(decision, &unicode, |first, previous, next| continues(glyphs, first, previous, next))
        .iter()
        .map(|run| run_text(&unicode, run))
        .collect()
}

#[test]
fn compatible_glyphs_form_one_run_in_source_order() {
    let runs = runs(ReconstructionDecision::NativeText, &[glyph('A', 10.0, 80.0), glyph('B', 18.0, 80.0)]);
    assert_eq!(runs.len(), 1);
    assert_eq!(runs[0], "AB");
}

#[test]
fn baseline_change_starts_a_new_run() {
    let runs = runs(ReconstructionDecision::NativeText, &[glyph('A', 10.0, 80.0), glyph('B', 18.0, 82.0)]);
    assert_eq!(runs.len(), 2);
}

#[test]
fn large_horizontal_gap_starts_a_new_run() {
    let runs = runs(ReconstructionDecision::NativeText, &[glyph('A', 10.0, 80.0), glyph('B', 40.0, 80.0)]);
    assert_eq!(runs.len(), 2);
}

#[test]
fn style_change_starts_a_new_run() {
    let mut second = glyph('B', 18.0, 80.0);
    second.fill = Some(Color { red: 255, green: 0, blue: 0, alpha: 255 });
    let runs = runs(ReconstructionDecision::NativeText, &[glyph('A', 10.0, 80.0), second]);
    assert_eq!(runs.len(), 2);
}

#[test]
fn fallback_objects_do_not_form_native_runs() {
    let decision = ReconstructionDecision::TextFailure(TextFailureReason::MissingUnicode);
    assert!(runs(decision, &[glyph('A', 10.0, 80.0)]).is_empty());
}

#[test]
fn glyphs_without_unicode_are_left_out_of_runs() {
    let mut hidden = glyph('x', 18.0, 80.0);
    hidden.unicode = None;
    let glyphs = [glyph('A', 10.0, 80.0), hidden, glyph('B', 26.0, 80.0), glyph('C', 200.0, 80.0)];
    assert_eq!(runs(ReconstructionDecision::NativeText, &glyphs), vec!["AB".to_owned(), "C".to_owned()]);
    let unicode: Vec<Option<char>> = glyphs.iter().map(|glyph| glyph.unicode).collect();
    let indices = glyph_runs(ReconstructionDecision::NativeText, &unicode, |first, previous, next| {
        continues(&glyphs, first, previous, next)
    });
    assert_eq!(indices, vec![vec![0, 2], vec![3]]);
}

#[test]
fn a_run_is_measured_from_its_first_glyph() {
    // Each glyph is within reach of the one before it, but the run's style
    // is the first glyph's: a gradual size change eventually breaks it.
    let mut glyphs = Vec::new();
    for (index, size) in [12.0, 12.5, 13.0].iter().enumerate() {
        let mut g = glyph(char::from(b'a' + index as u8), 10.0 + 8.0 * index as f32, 80.0);
        g.font_size = *size;
        glyphs.push(g);
    }
    assert_eq!(runs(ReconstructionDecision::NativeText, &glyphs), vec!["ab".to_owned(), "c".to_owned()]);
}

#[test]
fn no_glyphs_make_no_runs() {
    assert!(runs(ReconstructionDecision::NativeText, &[]).is_empty());
}
