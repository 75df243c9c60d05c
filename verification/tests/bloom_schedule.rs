use terrarium::bloom_schedule::{
    bloom_dispatches, mip_resolutions, workgroups, BloomDirection, MipResolution,
};

fn res(width: u32, height: u32) -> MipResolution {
    MipResolution { width, height }
}

#[test]
fn mip_chain_halves_down_to_one_texel() {
    assert_eq!(
        mip_resolutions(8, 3, 5),
        vec![res(8, 3), res(4, 1), res(2, 1), res(1, 1), res(1, 1)]
    );
    assert_eq!(mip_resolutions(1920, 1080, 1), vec![res(1920, 1080)]);
}

#[test]
fn bloom_walks_down_then_back_up() {
    let d = bloom_dispatches(8, 4, 4);
    assert_eq!(d.len(), 6);
    let expected = [
        (BloomDirection::Downsample, 0, res(8, 4), res(4, 2), true),
        (BloomDirection::Downsample, 1, res(4, 2), res(2, 1), true),
        (BloomDirection::Downsample, 2, res(2, 1), res(1, 1), true),
        (BloomDirection::Upsample, 3, res(1, 1), res(2, 1), false),
        (BloomDirection::Upsample, 2, res(2, 1), res(4, 2), false),
        (BloomDirection::Upsample, 1, res(4, 2), res(8, 4), true),
    ];
    for (k, (direction, level, src, dst, intensity)) in expected.iter().enumerate() {
        assert_eq!(d[k].direction, *direction);
        assert_eq!(d[k].src_mip_level, *level);
        assert_eq!(d[k].src_resolution, *src);
        assert_eq!(d[k].dst_resolution, *dst);
        assert_eq!(d[k].applies_intensity, *intensity);
    }
    assert!(bloom_dispatches(8, 4, 1).is_empty());
}

#[test]
fn dispatches_cover_the_destination_with_16_texel_workgroups() {
    assert_eq!(workgroups(0), 0);
    assert_eq!(workgroups(1), 1);
    assert_eq!(workgroups(16), 1);
    assert_eq!(workgroups(17), 2);
    assert_eq!(workgroups(u32::MAX), 268_435_456);
    let d = bloom_dispatches(40, 17, 2);
    assert_eq!(d.len(), 2);
    assert_eq!((d[0].workgroups_x, d[0].workgroups_y), (2, 1));
    assert_eq!((d[1].workgroups_x, d[1].workgroups_y), (3, 2));
}
