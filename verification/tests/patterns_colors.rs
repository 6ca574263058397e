use rust_raytracer::color::Color;
use rust_raytracer::fixed::Fx;
use rust_raytracer::patterns::{CheckerPattern, GradientPattern, Pattern, RingPattern, StripedPattern};
use rust_raytracer::shape::{Shape, ShapeType};
use rust_raytracer::transform::{scale, translate};
use rust_raytracer::tuple::{point, Tuple};

fn fx(v: f64) -> Fx {
    Fx::from_mantissa((v * 1.0e13).round() as i64)
}

fn pt(x: f64, y: f64, z: f64) -> Tuple {
    point(fx(x), fx(y), fx(z))
}

fn white() -> Color {
    Color::white()
}

fn black() -> Color {
    Color::black()
}

#[test]
fn creating_a_stripe_pattern() {
    let pattern = StripedPattern::new(white(), black());
    assert_eq!(white(), pattern.a);
    assert_eq!(black(), pattern.b);
}

#[test]
fn stripe_pattern_is_constant_in_y() {
    let pattern = StripedPattern::new(white(), black());
    assert_eq!(white(), pattern.color_at(pt(0.0, 0.0, 0.0)));
    assert_eq!(white(), pattern.color_at(pt(0.0, 1.0, 0.0)));
    assert_eq!(white(), pattern.color_at(pt(0.0, 2.0, 0.0)));
}

#[test]
fn stripe_pattern_is_constant_in_z() {
    let pattern = StripedPattern::new(white(), black());
    assert_eq!(white(), pattern.color_at(pt(0.0, 0.0, 0.0)));
    assert_eq!(white(), pattern.color_at(pt(0.0, 0.0, 1.0)));
    assert_eq!(white(), pattern.color_at(pt(0.0, 0.0, 2.0)));
}

#[test]
fn stripe_pattern_alternates_in_x() {
    let pattern = StripedPattern::new(white(), black());
    assert_eq!(white(), pattern.color_at(pt(0.0, 0.0, 0.0)));
    assert_eq!(white(), pattern.color_at(pt(0.9, 0.0, 0.0)));
    assert_eq!(black(), pattern.color_at(pt(1.0, 0.0, 0.0)));
    assert_eq!(black(), pattern.color_at(pt(-0.1, 0.0, 0.0)));
    assert_eq!(black(), pattern.color_at(pt(-1.0, 0.0, 0.0)));
    assert_eq!(white(), pattern.color_at(pt(-1.1, 0.0, 0.0)));
}

#[test]
fn stripes_with_an_object_transformation() {
    let mut object = Shape::new(ShapeType::Sphere);
    object.transform = scale(fx(2.0), fx(2.0), fx(2.0));
    let pattern = Pattern::Stripe(StripedPattern::new(white(), black()));
    let c = pattern.color_at_object(&object, pt(1.5, 0.0, 0.0));
    assert_eq!(white(), c);
}

#[test]
fn stripes_with_a_pattern_transformation() {
    let object = Shape::new(ShapeType::Sphere);
    let mut striped = StripedPattern::new(white(), black());
    striped.transform = scale(fx(2.0), fx(2.0), fx(2.0));
    let pattern = Pattern::Stripe(striped);
    let c = pattern.color_at_object(&object, pt(1.5, 0.0, 0.0));
    assert_eq!(white(), c);
}

#[test]
fn stripes_with_bot_object_and_pattern_transformation() {
    let mut object = Shape::new(ShapeType::Sphere);
    object.transform = scale(fx(2.0), fx(2.0), fx(2.0));
    let mut striped = StripedPattern::new(white(), black());
    striped.transform = translate(fx(0.5), fx(0.0), fx(0.0));
    let pattern = Pattern::Stripe(striped);
    let c = pattern.color_at_object(&object, pt(2.5, 0.0, 0.0));
    assert_eq!(white(), c);
}

#[test]
fn gradient_pattern_linearly_interpolates_between_colors() {
    let pattern = GradientPattern::new(white(), black());
    assert_eq!(white(), pattern.color_at(pt(0.0, 0.0, 0.0)));
    assert_eq!(
        Color::new(fx(0.75), fx(0.75), fx(0.75)),
        pattern.color_at(pt(0.25, 0.0, 0.0)),
    );
    assert_eq!(
        Color::new(fx(0.5), fx(0.5), fx(0.5)),
        pattern.color_at(pt(0.5, 0.0, 0.0)),
    );
    assert_eq!(
        Color::new(fx(0.25), fx(0.25), fx(0.25)),
        pattern.color_at(pt(0.75, 0.0, 0.0)),
    );
}

#[test]
fn ring_pattern_should_extend_in_x_and_z() {
    let pattern = RingPattern::new(white(), black());
    assert_eq!(white(), pattern.color_at(pt(0.0, 0.0, 0.0)));
    assert_eq!(black(), pattern.color_at(pt(1.0, 0.0, 0.0)));
    assert_eq!(black(), pattern.color_at(pt(0.0, 0.0, 1.0)));
    assert_eq!(black(), pattern.color_at(pt(0.708, 0.0, 0.708)));
}

#[test]
fn checker_pattern_repeats_in_x() {
    let pattern = CheckerPattern::new(white(), black());
    assert_eq!(white(), pattern.color_at(pt(0.0, 0.0, 0.0)));
    assert_eq!(white(), pattern.color_at(pt(0.99, 0.0, 0.0)));
    assert_eq!(black(), pattern.color_at(pt(1.1, 0.0, 0.0)));
}

#[test]
fn checker_pattern_repeats_in_y() {
    let pattern = CheckerPattern::new(white(), black());
    assert_eq!(white(), pattern.color_at(pt(0.0, 0.0, 0.0)));
    assert_eq!(white(), pattern.color_at(pt(0.0, 0.99, 0.0)));
    assert_eq!(black(), pattern.color_at(pt(0.0, 1.1, 0.0)));
}

#[test]
fn checker_pattern_repeats_in_z() {
    let pattern = CheckerPattern::new(white(), black());
    assert_eq!(white(), pattern.color_at(pt(0.0, 0.0, 0.0)));
    assert_eq!(white(), pattern.color_at(pt(0.0, 0.0, 0.99)));
    assert_eq!(black(), pattern.color_at(pt(0.0, 0.0, 1.1)));
}
