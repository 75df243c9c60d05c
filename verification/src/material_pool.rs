//! Which slot of the material pool's texture array each texture occupies.
//!
//! A texture is uploaded once: the first material that uses it gives it the next free slot,
//! later materials reuse that slot.  The upload itself is the caller's.
use std::collections::HashMap;
use vstd::prelude::*;

verus! {

broadcast use vstd::std_specs::hash::group_hash_axioms;

/// Number of materials the pool holds.
pub const MAX_MATERIAL_POOL_MATERIALS: usize = 1024 * 8;

/// Number of textures the pool holds.
pub const MAX_MATERIAL_POOL_TEXTURES: usize = 1024;

/// The texture index a material records when it has no texture of a kind.
pub const NO_TEXTURE: u32 = 0xffff_ffff;

/// Where a material's texture of one kind is found.
#[derive(Debug, Clone, Copy, PartialEq, Eq, Structural)]
pub enum TextureSlot {
    /// The material has no texture of this kind.
    Missing,
    /// The texture was uploaded before, to this slot.
    Existing(u32),
    /// The texture is new: the caller uploads it, and it takes this slot.
    Fresh(u32),
}

impl TextureSlot {
    /// The index the material descriptor records.
    pub open spec fn spec_index(self) -> u32 {
        match self {
            TextureSlot::Missing => NO_TEXTURE,
            TextureSlot::Existing(i) => i,
            TextureSlot::Fresh(i) => i,
        }
    }

    /// The index the material descriptor records: the slot, or `NO_TEXTURE`.
    pub fn index(&self) -> (r: u32)
        ensures
            r == self.spec_index(),
    {
        match self {
            TextureSlot::Missing => NO_TEXTURE,
            TextureSlot::Existing(i) => *i,
            TextureSlot::Fresh(i) => *i,
        }
    }
}

/// The slot that `texture` gets from the table `indices` with `count` slots given out, and the
/// table and count afterwards: the slot it holds, or else the next slot, which it then holds.
pub open spec fn slot_step(indices: Map<u128, usize>, count: nat, texture: Option<u128>) -> (
    TextureSlot,
    Map<u128, usize>,
    nat,
) {
    match texture {
        None => (TextureSlot::Missing, indices, count),
        Some(id) => if indices.contains_key(id) {
            (TextureSlot::Existing(indices[id] as u32), indices, count)
        } else {
            (TextureSlot::Fresh(count as u32), indices.insert(id, count as usize), count + 1)
        },
    }
}

/// What `slot_for(texture)` does to the table `old`, giving `r` and `new`.
pub open spec fn slot_for_post(
    old: TextureSlots,
    texture: Option<u128>,
    r: TextureSlot,
    new: TextureSlots,
) -> bool {
    let step = slot_step(old.spec_indices(), old.spec_count(), texture);
    &&& r == step.0
    &&& new.spec_indices() == step.1
    &&& new.spec_count() == step.2
}

/// Asking twice for the slot of the same texture gives the same slot, and only the first
/// answer asks for an upload.
pub proof fn lemma_texture_uploaded_once(
    s0: TextureSlots,
    id: u128,
    r1: TextureSlot,
    s1: TextureSlots,
    r2: TextureSlot,
    s2: TextureSlots,
)
    requires
        slot_for_post(s0, Some(id), r1, s1),
        slot_for_post(s1, Some(id), r2, s2),
    ensures
        r2 == TextureSlot::Existing(r1.spec_index()),
        s2.spec_indices() == s1.spec_indices(),
        s2.spec_count() == s1.spec_count(),
{
}

/// The slots given to textures so far, by texture id.
pub struct TextureSlots {
    indices: HashMap<u128, usize>,
    count: usize,
}

impl TextureSlots {
    /// Texture id -> slot.
    pub closed spec fn spec_indices(&self) -> Map<u128, usize> {
        self.indices@
    }

    /// Number of slots given out, which is the number of textures uploaded.
    pub closed spec fn spec_count(&self) -> nat {
        self.count as nat
    }

    /// Every texture holds a slot below the count, and no two textures share a slot.
    pub closed spec fn wf(&self) -> bool {
        &&& forall|id: u128| #[trigger]
            self.spec_indices().contains_key(id) ==> self.spec_indices()[id] < self.spec_count()
        &&& forall|a: u128, b: u128|
            #[trigger] self.spec_indices().contains_key(a) && #[trigger] self.spec_indices().contains_key(b)
                && a != b ==> self.spec_indices()[a] != self.spec_indices()[b]
    }

    /// No texture has a slot yet.
    pub fn new() -> (r: Self)
        ensures
            r.spec_indices() == Map::<u128, usize>::empty(),
            r.spec_count() == 0,
            r.wf(),
    {
        Self { indices: HashMap::new(), count: 0 }
    }

    /// Number of textures uploaded so far.
    pub fn texture_count(&self) -> (r: usize)
        ensures
            r == self.spec_count(),
    {
        self.count
    }

    /// The slot of the texture with id `texture`, if the material has one: the slot it was
    /// given before, or else the next slot, which it now holds.
    pub fn slot_for(&mut self, texture: Option<u128>) -> (r: TextureSlot)
        requires
            old(self).spec_count() < usize::MAX,
        ensures
            slot_for_post(*old(self), texture, r, *final(self)),
            old(self).wf() ==> final(self).wf(),
    {
        match texture {
            None => {
                TextureSlot::Missing
            },
            Some(id) => {
                match self.indices.get(&id) {
                    Some(i) => TextureSlot::Existing(#[verifier::truncate] (*i as u32)),
                    None => {
                        let i = self.count;
                        self.indices.insert(id, i);
                        self.count = i + 1;
                        proof {
                            if old(self).wf() {
                                assert forall|a: u128| #[trigger] self.spec_indices().contains_key(a) implies self.spec_indices()[a] < self.spec_count() by {
                                    if a != id {
                                        assert(old(self).spec_indices().contains_key(a));
                                    }
                                }
                                assert forall|a: u128, b: u128|
                                    #[trigger] self.spec_indices().contains_key(a) && #[trigger] self.spec_indices().contains_key(b)
                                        && a != b implies self.spec_indices()[a] != self.spec_indices()[b] by {
                                    if a != id {
                                        assert(old(self).spec_indices().contains_key(a));
                                    }
                                    if b != id {
                                        assert(old(self).spec_indices().contains_key(b));
                                    }
                                }
                                assert(self.wf());
                            }
                        }
                        TextureSlot::Fresh(#[verifier::truncate] (i as u32))
                    },
                }
            },
        }
    }
}

/// The texture slots a material descriptor records, one per texture kind.  Only the color,
/// metallic-roughness, normal and emission kinds come from the material; the others are always
/// `NO_TEXTURE`.
#[derive(Debug, Clone, Copy, PartialEq, Eq, Structural)]
pub struct MaterialTextureIndices {
    pub color_texture: u32,
    pub metallic_roughness_texture: u32,
    pub normal_texture: u32,
    pub emission_texture: u32,
    pub transmission_texture: u32,
    pub sheen_texture: u32,
    pub sheen_tint_texture: u32,
    pub clearcoat_texture: u32,
    pub clearcoat_roughness_texture: u32,
    pub clearcoat_normal_texture: u32,
}

/// The descriptor's texture slots for a material with the given four slots.
pub open spec fn material_texture_indices(
    color: u32,
    metallic_roughness: u32,
    normal: u32,
    emission: u32,
) -> MaterialTextureIndices {
    MaterialTextureIndices {
        color_texture: color,
        metallic_roughness_texture: metallic_roughness,
        normal_texture: normal,
        emission_texture: emission,
        transmission_texture: NO_TEXTURE,
        sheen_texture: NO_TEXTURE,
        sheen_tint_texture: NO_TEXTURE,
        clearcoat_texture: NO_TEXTURE,
        clearcoat_roughness_texture: NO_TEXTURE,
        clearcoat_normal_texture: NO_TEXTURE,
    }
}

/// The texture ids of a material's four texture kinds, `None` where it has none.
#[derive(Debug, Clone, Copy, PartialEq, Eq, Structural)]
pub struct MaterialTextures {
    pub color: Option<u128>,
    pub metallic_roughness: Option<u128>,
    pub normal: Option<u128>,
    pub emission: Option<u128>,
}

/// What adding a material did: its index in the pool, and where each of its textures went.
/// The caller uploads every `Fresh` texture, as `uploads` lists them.
#[derive(Debug, Clone, Copy, PartialEq, Eq, Structural)]
pub struct MaterialAllocation {
    pub index: u32,
    pub color: TextureSlot,
    pub metallic_roughness: TextureSlot,
    pub normal: TextureSlot,
    pub emission: TextureSlot,
}

/// The slots a material's textures get, in the order color, metallic-roughness, normal, emission,
/// from the table `indices` with `count` slots given out; and the table and count afterwards.
pub open spec fn material_slots(indices: Map<u128, usize>, count: nat, textures: MaterialTextures) -> (
    (TextureSlot, TextureSlot, TextureSlot, TextureSlot),
    Map<u128, usize>,
    nat,
) {
    let c = slot_step(indices, count, textures.color);
    let m = slot_step(c.1, c.2, textures.metallic_roughness);
    let n = slot_step(m.1, m.2, textures.normal);
    let e = slot_step(n.1, n.2, textures.emission);
    ((c.0, m.0, n.0, e.0), e.1, e.2)
}

/// Adding a material never moves a texture that already had a slot, and leaves each of its own
/// textures holding a slot.
pub proof fn lemma_material_slots_keep_and_add(
    indices: Map<u128, usize>,
    count: nat,
    textures: MaterialTextures,
)
    ensures
        ({
            let after = material_slots(indices, count, textures).1;
            &&& forall|id: u128| #[trigger] indices.contains_key(id) ==> after.contains_key(id)
                && after[id] == indices[id]
            &&& textures.color matches Some(id) ==> after.contains_key(id)
            &&& textures.metallic_roughness matches Some(id) ==> after.contains_key(id)
            &&& textures.normal matches Some(id) ==> after.contains_key(id)
            &&& textures.emission matches Some(id) ==> after.contains_key(id)
        }),
{
}

/// The materials added so far, with the texture slots they record.
pub struct MaterialPool {
    textures: TextureSlots,
    materials: Vec<MaterialTextureIndices>,
}

impl MaterialPool {
    /// Texture id -> slot, over all textures uploaded so far.
    pub closed spec fn spec_texture_indices(&self) -> Map<u128, usize> {
        self.textures.spec_indices()
    }

    /// Number of textures uploaded so far.
    pub closed spec fn spec_texture_count(&self) -> nat {
        self.textures.spec_count()
    }

    /// The descriptors' texture slots, in the order the materials were added.
    pub closed spec fn spec_materials(&self) -> Seq<MaterialTextureIndices> {
        self.materials@
    }

    /// Every texture holds its own slot below the texture count.
    pub closed spec fn wf(&self) -> bool {
        self.textures.wf()
    }

    /// No materials and no textures.
    pub fn new() -> (r: Self)
        ensures
            r.spec_texture_indices() == Map::<u128, usize>::empty(),
            r.spec_texture_count() == 0,
            r.spec_materials() == Seq::<MaterialTextureIndices>::empty(),
            r.wf(),
    {
        MaterialPool { textures: TextureSlots::new(), materials: Vec::new() }
    }

    /// Number of materials added.
    pub fn material_count(&self) -> (r: usize)
        ensures
            r == self.spec_materials().len(),
    {
        self.materials.len()
    }

    /// Number of textures uploaded.
    pub fn texture_count(&self) -> (r: usize)
        ensures
            r == self.spec_texture_count(),
    {
        self.textures.texture_count()
    }

    /// The texture slots of material `i`.
    pub fn material_descriptor(&self, i: u32) -> (r: MaterialTextureIndices)
        requires
            i < self.spec_materials().len(),
        ensures
            r == self.spec_materials()[i as int],
    {
        self.materials[i as usize]
    }

    /// Adds a material: each of its textures keeps the slot it was given before or takes the
    /// next one, the descriptor records those slots, and the material's index is returned.
    pub fn alloc_material(&mut self, textures: MaterialTextures) -> (r: MaterialAllocation)
        requires
            old(self).spec_texture_count() + 4 <= usize::MAX,
            (old(self).spec_materials().len() + 1) as u32 != 0,
        ensures
            ({
                let s = material_slots(
                    old(self).spec_texture_indices(),
                    old(self).spec_texture_count(),
                    textures,
                );
                &&& (r.color, r.metallic_roughness, r.normal, r.emission) == s.0
                &&& final(self).spec_texture_indices() == s.1
                &&& final(self).spec_texture_count() == s.2
            }),
            final(self).spec_materials() == old(self).spec_materials().push(
                material_texture_indices(
                    r.color.spec_index(),
                    r.metallic_roughness.spec_index(),
                    r.normal.spec_index(),
                    r.emission.spec_index(),
                ),
            ),
            r.index == ((old(self).spec_materials().len() + 1) as u32) - 1,
            old(self).wf() ==> final(self).wf(),
    {
        let color = self.textures.slot_for(textures.color);
        let metallic_roughness = self.textures.slot_for(textures.metallic_roughness);
        let normal = self.textures.slot_for(textures.normal);
        let emission = self.textures.slot_for(textures.emission);
        let descriptor = MaterialTextureIndices {
            color_texture: color.index(),
            metallic_roughness_texture: metallic_roughness.index(),
            normal_texture: normal.index(),
            emission_texture: emission.index(),
            transmission_texture: NO_TEXTURE,
            sheen_texture: NO_TEXTURE,
            sheen_tint_texture: NO_TEXTURE,
            clearcoat_texture: NO_TEXTURE,
            clearcoat_roughness_texture: NO_TEXTURE,
            clearcoat_normal_texture: NO_TEXTURE,
        };
        self.materials.push(descriptor);
        let count: u32 = #[verifier::truncate] (self.materials.len() as u32);
        MaterialAllocation { index: count - 1, color, metallic_roughness, normal, emission }
    }
}

/// The four kinds of texture a material takes from its model.
#[derive(Debug, Clone, Copy, PartialEq, Eq, Structural)]
pub enum TextureKind {
    Color,
    MetallicRoughness,
    Normal,
    Emission,
}

/// Color and emission textures hold sRGB-encoded colors; the others hold linear data.
pub open spec fn spec_is_srgb(kind: TextureKind) -> bool {
    kind == TextureKind::Color || kind == TextureKind::Emission
}

/// Whether a texture of this kind is uploaded as sRGB.
pub fn is_srgb(kind: TextureKind) -> (r: bool)
    ensures
        r == spec_is_srgb(kind),
{
    match kind {
        TextureKind::Color => true,
        TextureKind::MetallicRoughness => false,
        TextureKind::Normal => false,
        TextureKind::Emission => true,
    }
}

/// A texture the caller uploads: the kind it was given for, the slot it takes, and whether it
/// is uploaded as sRGB.
#[derive(Debug, Clone, Copy, PartialEq, Eq, Structural)]
pub struct TextureUpload {
    pub kind: TextureKind,
    pub slot: u32,
    pub srgb: bool,
}

/// The upload a slot asks for: one when the texture is new, none otherwise.
pub open spec fn spec_upload(kind: TextureKind, slot: TextureSlot) -> Seq<TextureUpload> {
    match slot {
        TextureSlot::Fresh(i) => seq![TextureUpload { kind, slot: i, srgb: spec_is_srgb(kind) }],
        _ => Seq::empty(),
    }
}

/// The uploads an allocation asks for, in the order color, metallic-roughness, normal, emission.
pub open spec fn spec_uploads(a: MaterialAllocation) -> Seq<TextureUpload> {
    spec_upload(TextureKind::Color, a.color) + spec_upload(TextureKind::MetallicRoughness, a.metallic_roughness)
        + spec_upload(TextureKind::Normal, a.normal) + spec_upload(TextureKind::Emission, a.emission)
}

/// Adds to `v` the upload `slot` asks for.
fn push_upload(v: &mut Vec<TextureUpload>, kind: TextureKind, slot: TextureSlot)
    ensures
        final(v)@ == old(v)@ + spec_upload(kind, slot),
{
    match slot {
        TextureSlot::Fresh(i) => {
            v.push(TextureUpload { kind, slot: i, srgb: is_srgb(kind) });
            assert(final(v)@ =~= old(v)@ + spec_upload(kind, slot));
        },
        _ => {
            assert(v@ =~= old(v)@ + spec_upload(kind, slot));
        },
    }
}

impl MaterialAllocation {
    /// The textures the caller uploads for this material: each new one, with its slot, color
    /// and emission textures as sRGB.
    pub fn uploads(&self) -> (r: Vec<TextureUpload>)
        ensures
            r@ == spec_uploads(*self),
    {
        let mut v: Vec<TextureUpload> = Vec::new();
        push_upload(&mut v, TextureKind::Color, self.color);
        push_upload(&mut v, TextureKind::MetallicRoughness, self.metallic_roughness);
        push_upload(&mut v, TextureKind::Normal, self.normal);
        push_upload(&mut v, TextureKind::Emission, self.emission);
        assert(v@ =~= spec_uploads(*self));
        v
    }
}

} // verus!
