use sonate::paint::{box_paint, BorderPaint, BoxPaint};
use sonate::style::{BorderRadius, BorderStyle, Directional, Length, Radius, Rgba, Style};

const BLACK: Rgba = Rgba { r: 0, g: 0, b: 0, a: 255 };

#[test]
fn plain_box_draws_a_black_border_and_black_text() {
    let s: Style<f64> = Style::default();
    assert_eq!(
        box_paint(&s),
        BoxPaint {
            background: None,
            radii: None,
            border: Some(BorderPaint { color: BLACK, widths: Directional::default() }),
            text_color: BLACK,
        }
    );
}

#[test]
fn colors_radii_and_hidden_borders_follow_the_style() {
    let red = Rgba { r: 255, g: 0, b: 0, a: 255 };
    let blue = Rgba { r: 0, g: 0, b: 255, a: 128 };
    let mut s: Style<f64> = Style::default();
    s.background_color = Some(red);
    s.color = Some(blue);
    s.border_color.top = Some(blue);
    s.border_width = Directional::set_all(Some(Length::Px(2.0)));
    let mut radius: BorderRadius<f64> = BorderRadius::default();
    radius.bottom_left = Some(Radius { x: Length::Px(3.0), y: Length::Px(4.0) });
    s.border_radius = radius;

    let p = box_paint(&s);
    assert_eq!(p.background, Some(red));
    assert_eq!(p.text_color, blue);
    assert_eq!(p.radii, Some(radius));
    assert_eq!(p.border.unwrap().color, blue);
    assert_eq!(p.border.unwrap().widths.left, Some(Length::Px(2.0)));

    s.border_style.top = Some(BorderStyle::Hidden);
    assert_eq!(box_paint(&s).border, None);
    s.border_style.top = Some(BorderStyle::NoneStyle);
    assert_eq!(box_paint(&s).border, None);
    s.border_style.top = Some(BorderStyle::Solid);
    s.border_style.left = Some(BorderStyle::NoneStyle);
    assert!(box_paint(&s).border.is_some());
}
