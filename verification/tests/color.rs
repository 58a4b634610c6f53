use drawcore::color::{Color, Palette};

#[test]
fn five_color_palette_order() {
    let p = Palette::five_color();
    assert_eq!(p.color_for(0), Color::Tomato);
    assert_eq!(p.color_for(1), Color::Orange);
    assert_eq!(p.color_for(2), Color::MediumSeaGreen);
    assert_eq!(p.color_for(3), Color::DodgerBlue);
    assert_eq!(p.color_for(4), Color::RebeccaPurple);
}

#[test]
fn five_color_palette_is_periodic() {
    let p = Palette::five_color();
    for id in 0..25u32 {
        assert_eq!(p.color_for(id), p.color_for(id + 5));
    }
    assert_eq!(p.color_for(92), Color::MediumSeaGreen);
}

#[test]
fn two_color_palette_splits_even_and_odd() {
    let p = Palette::two_color();
    assert_eq!(p.color_for(92), Color::Tomato);
    assert_eq!(p.color_for(93), Color::DodgerBlue);
    assert_eq!(p.color_for(0), p.color_for(2));
}

#[test]
fn empty_palette_is_refused() {
    assert!(Palette::new(Vec::new()).is_none());
}

#[test]
fn single_color_palette_is_constant() {
    let p = Palette::new(vec![Color::Gray]).expect("one color is enough");
    assert_eq!(p.color_for(0), Color::Gray);
    assert_eq!(p.color_for(41), Color::Gray);
}

#[test]
fn css_names() {
    assert_eq!(Color::Black.css_name(), "black");
    assert_eq!(Color::Tomato.css_name(), "Tomato");
    assert_eq!(Color::MediumSeaGreen.css_name(), "MediumSeaGreen");
}
