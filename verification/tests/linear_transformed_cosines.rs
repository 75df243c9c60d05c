use terrarium::linear_transformed_cosines::{pack_range_bias, LtcInstances};

#[test]
fn packs_the_flag_into_the_lowest_bit() {
    let bits = 1.5f32.to_bits();
    assert_eq!(pack_range_bias(bits, false), bits & !1);
    assert_eq!(pack_range_bias(bits, true), (bits & !1) | 1);
    assert_eq!(pack_range_bias(0xffff_ffff, false), 0xffff_fffe);
    assert_eq!(pack_range_bias(0, true), 1);
    assert_eq!(pack_range_bias(3, false) & 1, 0);
}

#[test]
fn instances_are_counted_per_frame() {
    let mut lights = LtcInstances::new();
    assert_eq!(lights.instance_count(), 0);
    lights.submit_instance(2.0f32.to_bits(), true);
    lights.submit_instance(0.5f32.to_bits(), false);
    assert_eq!(lights.instance_count(), 2);
    lights.end_frame();
    assert_eq!(lights.instance_count(), 0);
}
