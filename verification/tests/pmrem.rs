use three_rs::pmrem::{
    cube_size_for, max_lod_for, source_needs_allocation, uses_integration, PmremSource, INTEGRATION_LEVELS, LOD_MIN, MIN_SIZE,
};
use three_rs::texture::Texture2D;
use three_rs::textures::{CubeTexture, Image};

#[test]
fn a_request_becomes_a_power_of_two_of_at_least_the_minimum() {
    assert_eq!(cube_size_for(0), MIN_SIZE);
    assert_eq!(cube_size_for(1), MIN_SIZE);
    assert_eq!(cube_size_for(255), 256);
    assert_eq!(cube_size_for(256), 256);
    assert_eq!(cube_size_for(300), 256);
    assert_eq!(cube_size_for(512), 512);
    assert_eq!(cube_size_for(1023), 512);
    assert_eq!(cube_size_for(1024), 1024);
    assert_eq!(cube_size_for(u32::MAX), 1 << 31);
}

#[test]
fn the_levels_run_down_to_eight_texels() {
    assert_eq!(max_lod_for(256), 8 - LOD_MIN);
    assert_eq!(max_lod_for(512), 6);
    assert_eq!(max_lod_for(8), 0);
    assert_eq!(max_lod_for(4), 0);
    assert_eq!(max_lod_for(0), 32 - LOD_MIN);
    assert_eq!(max_lod_for(96), 2);
}

#[test]
fn the_last_three_levels_integrate() {
    let max_lod = max_lod_for(256);
    let integrating: Vec<u32> = (0..=max_lod).filter(|&lod| uses_integration(lod, max_lod)).collect();
    assert_eq!(integrating, vec![3, 4, 5]);
    assert_eq!(integrating.len() as u32, INTEGRATION_LEVELS);
    assert!(uses_integration(0, 0));
    assert!(uses_integration(0, 2));
    assert!(!uses_integration(0, 3));
}

#[test]
fn a_source_asks_for_its_face_or_a_quarter_of_its_width() {
    let faces = |side: u32| -> Vec<Image> {
        (0..6).map(|_| Image::rgba8(side, side, vec![0; (side * side * 4) as usize])).collect()
    };
    assert_eq!(PmremSource::Cube(CubeTexture::new(faces(64))).requested_size(), 64);
    assert_eq!(PmremSource::Cube(CubeTexture::new(faces(0))).requested_size(), 256);
    assert_eq!(PmremSource::Equirectangular(Texture2D::new(1024, 512, None)).requested_size(), 256);
    assert_eq!(PmremSource::Equirectangular(Texture2D::new(3, 1, None)).requested_size(), 0);
}

#[test]
fn the_source_cube_is_kept_while_it_fits() {
    assert!(source_needs_allocation(None, 256, false));
    assert!(!source_needs_allocation(Some((256, false)), 256, false));
    assert!(!source_needs_allocation(Some((256, true)), 256, false));
    assert!(source_needs_allocation(Some((256, false)), 256, true));
    assert!(source_needs_allocation(Some((512, true)), 256, true));
}
