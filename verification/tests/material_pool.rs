use terrarium::material_pool::{
    is_srgb, MaterialPool, MaterialTextures, TextureKind, TextureSlot, TextureSlots, TextureUpload,
    NO_TEXTURE,
};

#[test]
fn textures_get_slots_once() {
    let mut t = TextureSlots::new();
    assert_eq!(t.slot_for(None), TextureSlot::Missing);
    assert_eq!(TextureSlot::Missing.index(), NO_TEXTURE);
    assert_eq!(t.slot_for(Some(0xabc)), TextureSlot::Fresh(0));
    assert_eq!(t.slot_for(Some(0xdef)), TextureSlot::Fresh(1));
    assert_eq!(t.slot_for(Some(0xabc)), TextureSlot::Existing(0));
    assert_eq!(t.texture_count(), 2);
    assert_eq!(t.slot_for(Some(0xdef)).index(), 1);
    assert_eq!(t.texture_count(), 2);
}

#[test]
fn materials_record_their_texture_slots() {
    let mut pool = MaterialPool::new();
    let first = pool.alloc_material(MaterialTextures {
        color: Some(10),
        metallic_roughness: None,
        normal: Some(20),
        emission: Some(10),
    });
    assert_eq!(first.index, 0);
    assert_eq!(first.color, TextureSlot::Fresh(0));
    assert_eq!(first.metallic_roughness, TextureSlot::Missing);
    assert_eq!(first.normal, TextureSlot::Fresh(1));
    assert_eq!(first.emission, TextureSlot::Existing(0));
    assert_eq!(pool.texture_count(), 2);

    let second = pool.alloc_material(MaterialTextures {
        color: Some(20),
        metallic_roughness: Some(30),
        normal: None,
        emission: None,
    });
    assert_eq!(second.index, 1);
    assert_eq!(second.color, TextureSlot::Existing(1));
    assert_eq!(second.metallic_roughness, TextureSlot::Fresh(2));
    assert_eq!(pool.material_count(), 2);
    assert_eq!(pool.texture_count(), 3);

    let d = pool.material_descriptor(0);
    assert_eq!(d.color_texture, 0);
    assert_eq!(d.metallic_roughness_texture, NO_TEXTURE);
    assert_eq!(d.normal_texture, 1);
    assert_eq!(d.emission_texture, 0);
    assert_eq!(d.transmission_texture, NO_TEXTURE);
    assert_eq!(d.sheen_texture, NO_TEXTURE);
    assert_eq!(d.sheen_tint_texture, NO_TEXTURE);
    assert_eq!(d.clearcoat_texture, NO_TEXTURE);
    assert_eq!(d.clearcoat_roughness_texture, NO_TEXTURE);
    assert_eq!(d.clearcoat_normal_texture, NO_TEXTURE);
    let d = pool.material_descriptor(1);
    assert_eq!(d.color_texture, 1);
    assert_eq!(d.metallic_roughness_texture, 2);
    assert_eq!(d.normal_texture, NO_TEXTURE);
}

#[test]
fn new_textures_are_uploaded_color_and_emission_as_srgb() {
    assert!(is_srgb(TextureKind::Color));
    assert!(!is_srgb(TextureKind::MetallicRoughness));
    assert!(!is_srgb(TextureKind::Normal));
    assert!(is_srgb(TextureKind::Emission));

    let mut pool = MaterialPool::new();
    let a = pool.alloc_material(MaterialTextures {
        color: Some(1),
        metallic_roughness: Some(2),
        normal: Some(3),
        emission: Some(4),
    });
    assert_eq!(
        a.uploads(),
        vec![
            TextureUpload { kind: TextureKind::Color, slot: 0, srgb: true },
            TextureUpload { kind: TextureKind::MetallicRoughness, slot: 1, srgb: false },
            TextureUpload { kind: TextureKind::Normal, slot: 2, srgb: false },
            TextureUpload { kind: TextureKind::Emission, slot: 3, srgb: true },
        ]
    );
    let b = pool.alloc_material(MaterialTextures {
        color: Some(4),
        metallic_roughness: None,
        normal: Some(3),
        emission: Some(5),
    });
    assert_eq!(b.uploads(), vec![TextureUpload { kind: TextureKind::Emission, slot: 4, srgb: true }]);
}
