use std::collections::HashSet;

use three_rs::bindings::{
    buffer_lookup, is_fresh, padded, AddressMode, BufferLookup, BufferSourceKind, BindGroupKey, CompareFunction, DrawKey, FilterMode, LayoutKey,
    MipmapFilterMode, Occurrences, SamplerKey, Serials, TextureSource, CACHE_GRACE_FRAMES,
};
use three_rs::textures::{MinFilter, TextureFilter, Wrapping};

fn draw(object: u32, material: usize) -> DrawKey {
    DrawKey {
        object: Some(object),
        geometry: 7,
        material,
        variant: 0,
        occurrence: 0,
    }
}

#[test]
fn a_repeated_draw_in_one_pass_gets_its_own_slot() {
    let mut pass = Occurrences::default();
    let first = pass.next(draw(1, 2));
    let other = pass.next(draw(3, 2));
    let second = pass.next(draw(1, 2));
    assert_eq!((first.occurrence, other.occurrence), (0, 0));
    assert_eq!(second.occurrence, 1);
    assert_ne!(first, second);

    let mut next = Occurrences::default();
    assert_eq!(next.next(draw(1, 2)), first);
    assert_eq!(next.next(draw(1, 2)), second);
}

#[test]
fn a_bind_group_key_knows_the_serials_it_binds() {
    let key = BindGroupKey::from_serials(LayoutKey::Render(1), 0, &[3, 5, 8]);
    assert!(key.binds_any(&HashSet::from([5])));
    assert!(key.binds_any(&HashSet::from([1, 8])));
    assert!(!key.binds_any(&HashSet::from([1, 2, 4])));
    assert!(!key.binds_any(&HashSet::new()));
}

#[test]
fn an_entry_survives_the_grace_window_and_no_longer() {
    assert!(is_fresh(10, 10));
    assert!(is_fresh(10, 10 + CACHE_GRACE_FRAMES));
    assert!(!is_fresh(10, 11 + CACHE_GRACE_FRAMES));
    assert!(is_fresh(0, 1));
}

fn texture(
    wrap_s: Wrapping,
    min_filter: MinFilter,
    anisotropy: u16,
) -> TextureSource {
    TextureSource::Texture2D {
        wrap_s,
        wrap_t: Wrapping::ClampToEdge,
        mag_filter: TextureFilter::Linear,
        min_filter,
        anisotropy,
    }
}

#[test]
fn textures_that_filter_alike_share_a_sampler_key() {
    let a = texture(Wrapping::ClampToEdge, MinFilter::LinearMipmapLinear, 1);
    let b = texture(Wrapping::ClampToEdge, MinFilter::LinearMipmapLinear, 1);
    let key = |source: &TextureSource| SamplerKey::of(source);
    assert_eq!(key(&a), key(&b));

    let b = texture(Wrapping::Repeat, MinFilter::LinearMipmapLinear, 1);
    assert_ne!(key(&a), key(&b));
    assert_eq!(key(&b).address[0], AddressMode::Repeat);
    let b = texture(Wrapping::ClampToEdge, MinFilter::LinearMipmapLinear, 1);
    assert_eq!(key(&a), key(&b));

    let b = texture(Wrapping::ClampToEdge, MinFilter::Nearest, 1);
    assert_ne!(key(&a), key(&b));
    let b = texture(Wrapping::ClampToEdge, MinFilter::LinearMipmapLinear, 2);
    assert_ne!(key(&a), key(&b));

    let shadow = SamplerKey::of(&TextureSource::ShadowMap {
        mag_filter: TextureFilter::Nearest,
        min_filter: TextureFilter::Nearest,
    });
    assert_eq!(shadow.compare, Some(CompareFunction::LessEqual));
    assert_ne!(shadow, key(&a));
}

#[test]
fn a_bind_group_is_keyed_on_what_it_binds_not_on_its_contents() {
    let mut serials = Serials::default();
    let (uniforms, view, sampler) = (serials.next(), serials.next(), serials.next());
    assert!(uniforms != view && view != sampler && uniforms != 0);

    let key = |layout, group, members: &[u64]| BindGroupKey::from_serials(layout, group, members);
    let first = key(LayoutKey::Render(9), 1, &[uniforms, view, sampler]);

    assert_eq!(
        key(LayoutKey::Render(9), 1, &[uniforms, view, sampler]),
        first
    );

    let resized = serials.next();
    assert_ne!(
        key(LayoutKey::Render(9), 1, &[uniforms, resized, sampler]),
        first
    );

    assert_ne!(
        key(LayoutKey::Compute(9), 1, &[uniforms, view, sampler]),
        first
    );
    assert_ne!(
        key(LayoutKey::Render(9), 0, &[uniforms, view, sampler]),
        first
    );
    assert_ne!(
        key(LayoutKey::Render(9), 1, &[view, uniforms, sampler]),
        first
    );
}

#[test]
fn padding_is_to_four_bytes_and_zero_filled() {
    assert_eq!(&*padded(&[1, 2, 3, 4]), &[1, 2, 3, 4]);
    assert_eq!(&*padded(&[1, 2, 3, 4, 5]), &[1, 2, 3, 4, 5, 0, 0, 0]);
    assert!(padded(&[]).is_empty());
}

#[test]
fn padding_twice_is_padding_once() {
    let once = padded(&[9, 8, 7, 6, 5, 4]);
    assert_eq!(once, vec![9, 8, 7, 6, 5, 4, 0, 0]);
    assert_eq!(padded(&once), once);
}

#[test]
fn serials_count_up_from_one() {
    let mut serials = Serials::new();
    assert_eq!(serials.next(), 1);
    assert_eq!(serials.next(), 2);
    assert_eq!(serials.next(), 3);
}

#[test]
fn renderer_draws_are_numbered_apart_from_object_draws() {
    let mut pass = Occurrences::new();
    let own = DrawKey {
        object: None,
        geometry: 7,
        material: 2,
        variant: 0,
        occurrence: 0,
    };
    assert_eq!(pass.next(own).occurrence, 0);
    assert_eq!(pass.next(draw(1, 2)).occurrence, 0);
    assert_eq!(pass.next(own).occurrence, 1);
    // A key handed in with an occurrence already set names the same draw.
    let mut renumbered = draw(1, 2);
    renumbered.occurrence = 5;
    assert_eq!(pass.next(renumbered).occurrence, 1);
}

#[test]
fn each_kind_of_texture_has_its_sampler() {
    let cube = SamplerKey::of(&TextureSource::Cube {
        mag_filter: TextureFilter::Linear,
        min_filter: MinFilter::Linear,
        anisotropy: 4,
    });
    assert_eq!(cube.address, [AddressMode::ClampToEdge; 3]);
    assert_eq!(cube.min_filter, FilterMode::Linear);
    assert_eq!(cube.mipmap_filter, MipmapFilterMode::Nearest);
    assert_eq!(cube.anisotropy_clamp, 4);
    assert_eq!(cube.compare, None);

    let volume = SamplerKey::of(&TextureSource::Texture3D {
        wrap_s: Wrapping::Repeat,
        wrap_t: Wrapping::ClampToEdge,
        wrap_r: Wrapping::Repeat,
        mag_filter: TextureFilter::Nearest,
        min_filter: MinFilter::Nearest,
    });
    assert_eq!(
        volume.address,
        [AddressMode::Repeat, AddressMode::ClampToEdge, AddressMode::Repeat]
    );
    assert_eq!(volume.mag_filter, FilterMode::Nearest);
    assert_eq!(volume.anisotropy_clamp, 1);

    let cube_depth = SamplerKey::of(&TextureSource::CubeDepth {
        mag_filter: TextureFilter::Linear,
        min_filter: TextureFilter::Linear,
    });
    assert_eq!(cube_depth.compare, Some(CompareFunction::LessEqual));
    assert_eq!(cube_depth.mag_filter, FilterMode::Linear);
}

#[test]
fn a_counter_hands_out_one_two_three() {
    let mut serials = Serials::new();
    let handed: Vec<u64> = (0..5).map(|_| serials.next()).collect();
    assert_eq!(handed, vec![1, 2, 3, 4, 5]);
}

#[test]
fn a_pass_numbers_each_ask_by_the_earlier_asks_for_its_draw() {
    let asks = [draw(1, 0), draw(2, 0), draw(1, 0), draw(1, 1), draw(1, 0)];
    let mut pass = Occurrences::new();
    let numbered: Vec<u32> = asks.iter().map(|key| pass.next(*key).occurrence).collect();
    assert_eq!(numbered, vec![0, 0, 1, 0, 2]);
    let mut again = Occurrences::new();
    let renumbered: Vec<u32> = asks.iter().map(|key| again.next(*key).occurrence).collect();
    assert_eq!(renumbered, numbered);
}

#[test]
fn the_buffer_cache_reuses_what_it_may() {
    let cases = [
        (BufferSourceKind::InstanceMatrix, true, true, BufferLookup::Upload),
        (BufferSourceKind::InstanceColor, false, false, BufferLookup::Upload),
        (BufferSourceKind::UniformArray, true, false, BufferLookup::Reuse),
        (BufferSourceKind::Range, false, false, BufferLookup::UploadAndCache),
        (BufferSourceKind::Attribute, true, true, BufferLookup::Reuse),
        (BufferSourceKind::Attribute, true, false, BufferLookup::UploadAndCache),
        (BufferSourceKind::Attribute, false, true, BufferLookup::UploadAndCache),
    ];
    for (kind, cached, same, expected) in cases {
        assert_eq!(buffer_lookup(kind, cached, same), expected);
    }
}
