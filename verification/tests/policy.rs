use pincushion::object::{adjust, process_arrow, process_bolt, process_throwable, AvObject, NetObject};
use pincushion::link::Link;
use pincushion::policy::{
    adjustment_for, Adjustment, Category, Scalar, TransformConfig, SHIFT_AXIS,
};

fn scalar(value: f32) -> Scalar {
    Scalar { bits: value.to_bits() }
}

fn config(arrow_offset: f32, arrow_scale: f32, bolt_offset: f32, bolt_scale: f32) -> TransformConfig {
    TransformConfig {
        arrow_offset: scalar(arrow_offset),
        arrow_scale: scalar(arrow_scale),
        bolt_offset: scalar(bolt_offset),
        bolt_scale: scalar(bolt_scale),
    }
}

fn untouched() -> AvObject {
    AvObject { net: NetObject { extra_data: Link::null() }, adjustments: vec![] }
}

/// Folds recorded adjustments into a translation and a scale, as a caller
/// with floating point does.
fn fold(adjustments: &[Adjustment], translation: [f32; 3], scale: f32) -> ([f32; 3], f32) {
    let mut translation = translation;
    let mut scale = scale;
    for adjustment in adjustments {
        match adjustment {
            Adjustment::Shift { offset, factor } => {
                translation[SHIFT_AXIS] += f32::from_bits(offset.bits);
                scale *= f32::from_bits(factor.bits);
            }
            Adjustment::Flip => scale *= -1.0,
        }
    }
    (translation, scale)
}

#[test]
fn arrow_is_shifted_and_scaled() {
    let config = config(8.0, 0.5, 100.0, 100.0);
    let mut object = untouched();
    process_arrow(&mut object, &config);
    assert_eq!(
        object.adjustments,
        vec![Adjustment::Shift { offset: scalar(8.0), factor: scalar(0.5) }]
    );
    let (translation, scale) = fold(&object.adjustments, [0.0, 0.0, 0.0], 1.0);
    assert_eq!(translation, [0.0, 8.0, 0.0]);
    assert_eq!(scale, 0.5);
}

#[test]
fn bolt_is_shifted_along_the_same_axis() {
    let config = config(100.0, 100.0, 4.0, 1.0);
    let mut object = untouched();
    process_bolt(&mut object, &config);
    assert_eq!(
        object.adjustments,
        vec![Adjustment::Shift { offset: scalar(4.0), factor: scalar(1.0) }]
    );
    let (translation, scale) = fold(&object.adjustments, [1.0, 2.0, 3.0], 1.5);
    assert_eq!(translation, [1.0, 6.0, 3.0]);
    assert_eq!(scale, 1.5);
}

#[test]
fn bolt_takes_the_bolt_scale() {
    let config = config(100.0, 100.0, 4.0, 0.25);
    let mut object = untouched();
    process_bolt(&mut object, &config);
    let (_, scale) = fold(&object.adjustments, [0.0, 0.0, 0.0], 2.0);
    assert_eq!(scale, 0.5);
}

#[test]
fn throwable_is_flipped_whatever_the_configuration() {
    for config in [config(8.0, 0.5, 4.0, 1.0), config(0.0, 0.0, 0.0, 0.0), config(-3.0, 7.0, 1e9, -2.0)] {
        assert_eq!(adjustment_for(Category::Thrown, &config), Adjustment::Flip);
    }
    let mut object = untouched();
    process_throwable(&mut object);
    assert_eq!(object.adjustments, vec![Adjustment::Flip]);
    for scale in [1.0f32, -2.5, 0.0, 3.0e-5] {
        let (translation, flipped) = fold(&object.adjustments, [1.0, 2.0, 3.0], scale);
        assert_eq!(flipped.to_bits(), (-scale).to_bits());
        assert_eq!(translation, [1.0, 2.0, 3.0]);
    }
}

#[test]
fn shift_axis_is_the_second() {
    assert_eq!(SHIFT_AXIS, 1);
}

#[test]
fn adjustment_for_follows_the_category() {
    let config = config(8.0, 0.5, 4.0, 1.0);
    assert_eq!(
        adjustment_for(Category::Arrow, &config),
        Adjustment::Shift { offset: scalar(8.0), factor: scalar(0.5) }
    );
    assert_eq!(
        adjustment_for(Category::Bolt, &config),
        Adjustment::Shift { offset: scalar(4.0), factor: scalar(1.0) }
    );
    assert_eq!(adjustment_for(Category::Thrown, &config), Adjustment::Flip);
}

#[test]
fn adjust_records_after_what_was_recorded() {
    let config = config(8.0, 0.5, 4.0, 1.0);
    let mut object = untouched();
    adjust(Category::Thrown, &mut object, &config);
    adjust(Category::Arrow, &mut object, &config);
    adjust(Category::Bolt, &mut object, &config);
    assert_eq!(
        object.adjustments,
        vec![
            Adjustment::Flip,
            Adjustment::Shift { offset: scalar(8.0), factor: scalar(0.5) },
            Adjustment::Shift { offset: scalar(4.0), factor: scalar(1.0) },
        ]
    );
    assert_eq!(object.net, NetObject { extra_data: Link::null() });
    let (translation, scale) = fold(&object.adjustments, [0.0, 0.0, 0.0], 1.0);
    assert_eq!(translation, [0.0, 12.0, 0.0]);
    assert_eq!(scale, -0.5);
}

#[test]
fn adjust_keeps_the_metadata_head() {
    let config = config(8.0, 0.5, 4.0, 1.0);
    let mut object = AvObject { net: NetObject { extra_data: Link::at(3) }, adjustments: vec![] };
    adjust(Category::Arrow, &mut object, &config);
    assert_eq!(object.net, NetObject { extra_data: Link::at(3) });
}
