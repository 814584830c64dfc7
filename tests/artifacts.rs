use gbt::builder::{build_from_tex_unit, generate_tex_split, split_image, unit_image};
use gbt::staleness::FileTime;
use gbt::unit::TexUnit;
use gbt::error::BuildError;
use gbt::ini::gen_ini;
use gbt::raster::RgbaImage;
use gbt::unit::{select_channels, TexEncoding};
use image::ImageEncoder;

fn png(width: u32, height: u32, samples: &[u8], color: image::ExtendedColorType) -> Vec<u8> {
    let mut out = Vec::new();
    image::codecs::png::PngEncoder::new(&mut out)
        .write_image(samples, width, height, color)
        .unwrap();
    out
}

#[test]
fn build_puts_alpha_channel_in_place() {
    let flat = png(2, 1, &[200, 100, 50, 255, 1, 2, 3, 255], image::ExtendedColorType::Rgba8);
    let alpha = png(2, 1, &[90, 7], image::ExtendedColorType::L8);
    let img = build_from_tex_unit(&flat, Some(&alpha)).unwrap();
    assert_eq!((img.width, img.height), (2, 1));
    assert_eq!(img.data, vec![200, 100, 50, 90, 1, 2, 3, 7]);
}

#[test]
fn build_without_alpha_keeps_opaque_composite() {
    let flat = png(1, 2, &[10, 20, 30, 255, 40, 50, 60, 255], image::ExtendedColorType::Rgba8);
    let img = build_from_tex_unit(&flat, None).unwrap();
    assert_eq!((img.width, img.height), (1, 2));
    assert_eq!(img.data, vec![10, 20, 30, 255, 40, 50, 60, 255]);
}

#[test]
fn build_pairing_ignores_path_order() {
    let flat = png(1, 1, &[5, 6, 7, 255], image::ExtendedColorType::Rgba8);
    let alpha = png(1, 1, &[33], image::ExtendedColorType::L8);
    let files = [("XFlat.png", flat), ("XAlpha.png", alpha)];
    let mut outputs = Vec::new();
    for order in [[0usize, 1], [1, 0]] {
        let paths: Vec<String> = order.iter().map(|&i| files[i].0.to_string()).collect();
        let c = select_channels(&paths).unwrap();
        let bytes_of = |k: usize| files.iter().find(|f| f.0 == paths[k]).unwrap().1.clone();
        let alpha = c.alpha.map(bytes_of);
        outputs.push(build_from_tex_unit(&bytes_of(c.flat), alpha.as_ref()).unwrap());
    }
    assert_eq!(outputs[0], outputs[1]);
    assert_eq!(outputs[0].data, vec![5, 6, 7, 33]);
}

#[test]
fn build_rejects_undecodable_sources() {
    let flat = png(4, 4, &[0; 64], image::ExtendedColorType::Rgba8);
    assert_eq!(
        build_from_tex_unit(&vec![1, 2, 3], None),
        Err(BuildError::DecodeFailure)
    );
    assert_eq!(
        build_from_tex_unit(&flat, Some(&vec![7, 7, 7])),
        Err(BuildError::DecodeFailure)
    );
}

#[test]
fn build_rejects_alpha_of_another_size() {
    let flat = png(4, 4, &[0; 64], image::ExtendedColorType::Rgba8);
    let alpha = png(8, 4, &[0; 32], image::ExtendedColorType::L8);
    assert_eq!(
        build_from_tex_unit(&flat, Some(&alpha)),
        Err(BuildError::DimensionMismatch)
    );
}

#[test]
fn split_keeps_alpha_for_diffuse_maps() {
    let data = vec![1, 2, 3, 4, 5, 6, 7, 8];
    let img = RgbaImage::from_raw(2, 1, data).unwrap();
    let (alpha, flat) = split_image("Hand_Diffuse", img).unwrap();
    let alpha = alpha.unwrap();
    assert_eq!(alpha.file_name, "Hand_DiffuseAlpha.png");
    assert_eq!(flat.file_name, "Hand_DiffuseFlat.png");
    let a = image::load_from_memory(&alpha.png).unwrap().to_luma8();
    assert_eq!(a.into_raw(), vec![4, 8]);
    let f = image::load_from_memory(&flat.png).unwrap().to_rgba8();
    assert_eq!(f.into_raw(), vec![1, 2, 3, 255, 5, 6, 7, 255]);
}

#[test]
fn split_drops_alpha_for_normal_maps() {
    let img = RgbaImage::from_raw(1, 1, vec![9, 8, 7, 6]).unwrap();
    let (alpha, flat) = split_image("Body_NormalMap", img).unwrap();
    assert!(alpha.is_none());
    assert_eq!(flat.file_name, "Body_NormalMapFlat.png");
    let f = image::load_from_memory(&flat.png).unwrap().to_rgba8();
    assert_eq!(f.into_raw(), vec![9, 8, 7, 255]);
}

fn bc7_dds(format: image_dds::ddsfile::DxgiFormat) -> Vec<u8> {
    let mut dds = image_dds::ddsfile::Dds::new_dxgi(image_dds::ddsfile::NewDxgiParams {
        height: 4,
        width: 4,
        depth: None,
        format,
        mipmap_levels: None,
        array_layers: None,
        caps2: None,
        is_cubemap: false,
        resource_dimension: image_dds::ddsfile::D3D10ResourceDimension::Texture2D,
        alpha_mode: image_dds::ddsfile::AlphaMode::Straight,
    })
    .unwrap();
    dds.data = vec![0; 16];
    let mut bytes = Vec::new();
    dds.write(&mut bytes).unwrap();
    bytes
}

#[test]
fn split_of_a_dds_source() {
    let bytes = bc7_dds(image_dds::ddsfile::DxgiFormat::BC7_UNorm_sRGB);
    let split = generate_tex_split("Body_LightMap", &bytes).unwrap();
    assert_eq!(split.encoding, TexEncoding::Bc7Srgb);
    let alpha = split.alpha.unwrap();
    assert_eq!(alpha.file_name, "Body_LightMapAlpha.png");
    assert_eq!(image::load_from_memory(&alpha.png).unwrap().to_luma8().dimensions(), (4, 4));
    assert_eq!(split.flat.file_name, "Body_LightMapFlat.png");
    let f = image::load_from_memory(&split.flat.png).unwrap().to_rgba8();
    assert_eq!(f.dimensions(), (4, 4));
    assert!(f.pixels().all(|p| p[3] == 255));
}

#[test]
fn split_keeps_linear_bc7_encoding() {
    let bytes = bc7_dds(image_dds::ddsfile::DxgiFormat::BC7_UNorm);
    let split = generate_tex_split("Body_NormalMap", &bytes).unwrap();
    assert_eq!(split.encoding, TexEncoding::Bc7Unorm);
    assert!(split.alpha.is_none());
}

#[test]
fn split_rejects_other_pixel_formats() {
    let mut dds = image_dds::ddsfile::Dds::new_dxgi(image_dds::ddsfile::NewDxgiParams {
        height: 1,
        width: 1,
        depth: None,
        format: image_dds::ddsfile::DxgiFormat::R8G8B8A8_UNorm,
        mipmap_levels: None,
        array_layers: None,
        caps2: None,
        is_cubemap: false,
        resource_dimension: image_dds::ddsfile::D3D10ResourceDimension::Texture2D,
        alpha_mode: image_dds::ddsfile::AlphaMode::Straight,
    })
    .unwrap();
    dds.data = vec![1, 2, 3, 4];
    let mut bytes = Vec::new();
    dds.write(&mut bytes).unwrap();
    assert_eq!(generate_tex_split("X_Diffuse", &bytes), Err(BuildError::DecodeFailure));
}

#[test]
fn split_rejects_other_containers() {
    assert_eq!(
        generate_tex_split("X_Diffuse", &vec![0, 1, 2, 3]),
        Err(BuildError::DecodeFailure)
    );
}

#[test]
fn ini_lists_each_unit() {
    let text = gen_ini(&vec!["abc123".to_string()]);
    assert_eq!(
        text,
        "[TextureOverrideabc123]\nhash = abc123\nthis = Resourceabc123\n\n[Resourceabc123]\nfilename = abc123.dds\n\n"
    );
    assert_eq!(gen_ini(&vec![]), "");
}

#[test]
fn split_rejects_oversized_cube_map_header() {
    let mut bytes = bc7_dds(image_dds::ddsfile::DxgiFormat::BC7_UNorm);
    assert_eq!(&bytes[84..88], b"DX10");
    assert!(gbt::dds::dimensions_bounded(&bytes));
    // Mark the texture as a cube map with the largest array size.
    bytes[136..140].copy_from_slice(&4u32.to_le_bytes());
    bytes[140..144].copy_from_slice(&u32::MAX.to_le_bytes());
    assert!(!gbt::dds::dimensions_bounded(&bytes));
    assert_eq!(generate_tex_split("X_Diffuse", &bytes), Err(BuildError::DecodeFailure));
}

#[test]
fn dimension_check_reads_height_and_depth() {
    let mut bytes = bc7_dds(image_dds::ddsfile::DxgiFormat::BC7_UNorm);
    bytes[12..16].copy_from_slice(&0x4000_0000u32.to_le_bytes());
    assert!(!gbt::dds::dimensions_bounded(&bytes));
    bytes[12..16].copy_from_slice(&0x10000u32.to_le_bytes());
    bytes[24..28].copy_from_slice(&0x10000u32.to_le_bytes());
    assert!(!gbt::dds::dimensions_bounded(&bytes));
    assert!(gbt::dds::dimensions_bounded(&bytes[..100]));
}

fn hand_diffuse() -> (TexUnit, Vec<Vec<u8>>) {
    let unit = TexUnit {
        encoding: TexEncoding::Bc7Srgb,
        source_paths: vec![
            "./Textures/Hand_DiffuseAlpha.png".to_string(),
            "./Textures/Hand_DiffuseFlat.png".to_string(),
        ],
    };
    let alpha = png(2, 1, &[40, 41], image::ExtendedColorType::L8);
    let flat = png(2, 1, &[1, 2, 3, 255, 4, 5, 6, 255], image::ExtendedColorType::Rgba8);
    (unit, vec![alpha, flat])
}

fn at(seconds: i64) -> FileTime {
    FileTime { seconds, nanos: 0 }
}

#[test]
fn unit_build_encodes_then_stages() {
    let (unit, contents) = hand_diffuse();
    let t0 = at(500);
    let first = unit_image(&unit, false, None, &vec![t0, t0], &contents).unwrap();
    assert_eq!(first.unwrap().data, vec![1, 2, 3, 40, 4, 5, 6, 41]);
    let second = unit_image(&unit, false, Some(at(501)), &vec![t0, t0], &contents);
    assert_eq!(second, Ok(None));
    let same_time = unit_image(&unit, false, Some(t0), &vec![t0, t0], &contents).unwrap();
    assert!(same_time.is_some());
}

#[test]
fn forced_unit_build_encodes_fresh_cache() {
    let (unit, contents) = hand_diffuse();
    let r = unit_image(&unit, true, Some(at(900)), &vec![at(1), at(2)], &contents).unwrap();
    assert_eq!(r.unwrap().data, vec![1, 2, 3, 40, 4, 5, 6, 41]);
}

#[test]
fn unit_build_ignores_path_order() {
    let (unit, contents) = hand_diffuse();
    let swapped = TexUnit {
        encoding: unit.encoding,
        source_paths: vec![unit.source_paths[1].clone(), unit.source_paths[0].clone()],
    };
    let swapped_contents = vec![contents[1].clone(), contents[0].clone()];
    let t = vec![at(1), at(1)];
    assert_eq!(
        unit_image(&unit, false, None, &t, &contents),
        unit_image(&swapped, false, None, &t, &swapped_contents)
    );
}

#[test]
fn unit_build_without_flat_fails() {
    let unit = TexUnit {
        encoding: TexEncoding::Bc7Unorm,
        source_paths: vec!["XAlpha.png".to_string(), "XOther.png".to_string()],
    };
    let contents = vec![vec![], vec![]];
    assert_eq!(
        unit_image(&unit, false, None, &vec![at(1), at(1)], &contents),
        Err(BuildError::MissingFlatChannel)
    );
}
