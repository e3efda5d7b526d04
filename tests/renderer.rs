use kitty_image::{
    div_ceil, is_kitty_term_name, Area, ImageData, KittyImage, KittyImageRenderer,
    TransmissionMedium, CHUNK_SIZE,
};

fn renderer(cell_width: u32, cell_height: u32) -> KittyImageRenderer {
    KittyImageRenderer::new(true, Some((cell_width, cell_height))).unwrap()
}

fn image(data: ImageData<'_>, width: u32, height: u32, area: Area) -> KittyImage<'_> {
    KittyImage { id: 1, data, img_width: width, img_height: height, area }
}

/// The payload of one escape sequence: what stands between `;` and `ESC \`.
fn payload(seq: &[u8]) -> &[u8] {
    let start = seq.iter().position(|&b| b == b';').unwrap() + 1;
    assert_eq!(&seq[seq.len() - 2..], b"\x1b\\");
    &seq[start..seq.len() - 2]
}

#[test]
fn div_ceil_rounds_up() {
    assert_eq!(div_ceil(0, 3), 0);
    assert_eq!(div_ceil(7, 2), 4);
    assert_eq!(div_ceil(8, 2), 4);
    assert_eq!(div_ceil(1, 16), 1);
    assert_eq!(div_ceil(u32::MAX, 1), u32::MAX);
    assert_eq!(div_ceil(u32::MAX, 2), 1 << 31);
    for a in 0..200u32 {
        for b in 1..20u32 {
            let r = div_ceil(a, b);
            assert!(r * b >= a);
            assert!(r == 0 || (r - 1) * b < a);
        }
    }
}

#[test]
fn new_needs_kitty_and_a_cell_size() {
    assert!(KittyImageRenderer::new(false, Some((8, 16))).is_none());
    assert!(KittyImageRenderer::new(true, None).is_none());
    assert!(KittyImageRenderer::new(true, Some((0, 16))).is_none());
    assert!(KittyImageRenderer::new(true, Some((8, 0))).is_none());
    let r = KittyImageRenderer::new(true, Some((8, 16))).unwrap();
    assert_eq!(r.transmission_medium, TransmissionMedium::Chunks);
}

#[test]
fn small_image_fits_unconstrained() {
    let r = renderer(8, 16);
    assert_eq!(r.rendering_dim(64, 32, 10, 5), (8, 2));
    let area = r.rendering_area(64, 32, &Area::new(0, 0, 10, 5));
    assert_eq!(area, Area::new(1, 1, 8, 2));
}

#[test]
fn large_image_is_width_constrained() {
    let r = renderer(10, 20);
    assert_eq!(r.rendering_dim(800, 600, 40, 20), (40, 15));
    let area = r.rendering_area(800, 600, &Area::new(3, 4, 40, 20));
    assert_eq!(area, Area::new(3, 6, 40, 15));
}

#[test]
fn tall_image_is_height_constrained() {
    let r = renderer(10, 20);
    // optimal (20, 50): 20 * 10 < 50 * 40, so the rows constrain
    assert_eq!(r.rendering_dim(200, 1000, 40, 10), (4, 10));
    let area = r.rendering_area(200, 1000, &Area::new(0, 0, 40, 10));
    assert_eq!(area, Area::new(18, 0, 4, 10));
}

#[test]
fn fit_stays_inside_and_centered() {
    let r = renderer(7, 15);
    for &(w, h) in &[(1, 1), (7, 15), (100, 3), (3, 100), (999, 999), (4000, 10)] {
        for &(cols, rows) in &[(0, 0), (1, 1), (10, 5), (80, 24), (3, 40)] {
            let a = Area::new(2, 3, cols, rows);
            let out = r.rendering_area(w, h, &a);
            assert!(out.width <= cols && out.height <= rows);
            assert!(a.left <= out.left && out.left + out.width <= a.left + a.width);
            assert!(a.top <= out.top && out.top + out.height <= a.top + a.height);
            let mid = out.left + out.width / 2;
            let target = a.left + a.width / 2;
            assert!(mid <= target && target <= mid + 1);
            let opt = (div_ceil(w, 7), div_ceil(h, 15));
            if opt.0 <= cols as u32 && opt.1 <= rows as u32 {
                assert_eq!((out.width as u32, out.height as u32), opt);
            }
        }
    }
}

#[test]
fn fit_with_huge_dimensions_does_not_overflow() {
    let r = renderer(1, 1);
    assert_eq!(r.rendering_dim(u32::MAX, u32::MAX, u32::MAX - 1, 7), (7, 7));
    assert_eq!(r.rendering_dim(u32::MAX, 1, 100, 100), (100, 0));
}

#[test]
fn ids_increase_from_one() {
    let mut r = renderer(8, 16);
    assert_eq!(r.new_id(), 1);
    assert_eq!(r.new_id(), 2);
    let ids = r.take_current_images().unwrap();
    assert_eq!(ids, vec![1, 2]);
    assert!(r.take_current_images().is_none());
    let _ = r.erase(ids);
    assert_eq!(r.new_id(), 3);
    let _ = r.erase_all();
    assert_eq!(r.new_id(), 4);
    assert_eq!(r.take_current_images(), Some(vec![4]));
}

#[test]
fn erase_all_clears_the_open_set() {
    let mut r = renderer(8, 16);
    r.new_id();
    r.new_id();
    assert_eq!(r.erase_all(), b"\x1b_Ga=d,d=A\x1b\\".to_vec());
    assert!(r.take_current_images().is_none());
}

#[test]
fn erase_deletes_each_id_in_order() {
    let mut r = renderer(8, 16);
    let out = r.erase(vec![3, 7, 9]);
    assert_eq!(
        out,
        b"\x1b_Ga=d,d=I,i=3\x1b\\\x1b_Ga=d,d=I,i=7\x1b\\\x1b_Ga=d,d=I,i=9\x1b\\".to_vec()
    );
    assert!(r.erase(vec![]).is_empty());
    assert_eq!(r.erase(vec![1234]), b"\x1b_Ga=d,d=I,i=1234\x1b\\".to_vec());
}

#[test]
fn format_codes() {
    let px = [0u8; 12];
    assert_eq!(ImageData::RgbaRef(&px).kitty_format(), "32");
    assert_eq!(ImageData::RgbRef(&px).kitty_format(), "24");
    assert_eq!(ImageData::Rgb(px.to_vec()).kitty_format(), "24");
    assert_eq!(ImageData::Rgb(px.to_vec()).bytes(), &px[..]);
}

#[test]
fn dimensions_match_buffer() {
    let px = [0u8; 12];
    assert!(ImageData::RgbaRef(&px).matches_dimensions(3, 1));
    assert!(ImageData::RgbRef(&px).matches_dimensions(2, 2));
    assert!(!ImageData::RgbRef(&px).matches_dimensions(3, 1));
    assert!(!ImageData::RgbaRef(&px).matches_dimensions(u32::MAX, u32::MAX));
    assert!(ImageData::Rgb(vec![]).matches_dimensions(0, 5));
}

#[test]
fn single_chunk_sequence() {
    let px = [1u8, 2, 3];
    let img = image(ImageData::RgbRef(&px), 1, 1, Area::new(0, 0, 1, 1));
    let seqs = img.print_with_chunks();
    assert_eq!(
        seqs,
        vec![b"\x1b_Ga=T,f=24,t=d,i=1,s=1,v=1,c=1,r=1,m=0;AQID\x1b\\".to_vec()]
    );
}

#[test]
fn chunks_rebuild_the_pixels() {
    let px: Vec<u8> = (0..10_000u32).map(|i| (i * 31 % 251) as u8).collect();
    let img = image(ImageData::RgbaRef(&px), 50, 50, Area::new(2, 3, 10, 5));
    let seqs = img.print_with_chunks();
    // 10000 bytes give 13336 characters of base64: three full chunks and a rest
    assert_eq!(seqs.len(), 4);
    let mut text = Vec::new();
    for (i, seq) in seqs.iter().enumerate() {
        let p = payload(seq);
        if i + 1 < seqs.len() {
            assert_eq!(p.len(), CHUNK_SIZE);
            let head = b"\x1b_Ga=T,f=32,t=d,i=1,s=50,v=50,c=10,r=5,m=1;";
            assert_eq!(&seq[..head.len()], &head[..]);
        } else {
            assert!(p.len() <= CHUNK_SIZE && !p.is_empty());
            assert!(seq.starts_with(b"\x1b_Gm=0;"));
        }
        text.extend_from_slice(p);
    }
    assert_eq!(base64::decode(&text).unwrap(), px);
}

#[test]
fn chunk_boundary_exactly_one_chunk() {
    let encoded = vec![b'A'; CHUNK_SIZE];
    let px = [0u8; 3];
    let img = image(ImageData::RgbRef(&px), 1, 1, Area::new(0, 0, 1, 1));
    let seqs = img.chunk_sequences(&encoded);
    assert_eq!(seqs.len(), 1);
    assert_eq!(payload(&seqs[0]).len(), CHUNK_SIZE);
    assert!(seqs[0].starts_with(b"\x1b_Ga=T,f=24,t=d,i=1,s=1,v=1,c=1,r=1,m=0;"));
    let seqs = img.chunk_sequences(&vec![b'A'; CHUNK_SIZE + 1]);
    assert_eq!(seqs.len(), 2);
    assert!(seqs[0].starts_with(b"\x1b_Ga=T,f=24,t=d,i=1,s=1,v=1,c=1,r=1,m=1;"));
    assert_eq!(seqs[1], b"\x1b_Gm=0;A\x1b\\".to_vec());
    let seqs = img.chunk_sequences(&[]);
    assert_eq!(seqs, vec![b"\x1b_Ga=T,f=24,t=d,i=1,s=1,v=1,c=1,r=1,m=0;\x1b\\".to_vec()]);
}

#[test]
fn temp_file_sequence_carries_the_encoded_path() {
    let px = [0u8; 8];
    let mut img = image(ImageData::RgbaRef(&px), 2, 1, Area::new(4, 5, 2, 1));
    img.id = 12;
    let out = img.print_with_temp_file("/tmp/x");
    assert_eq!(out, b"\x1b_Ga=T,f=32,t=t,i=12,s=2,v=1,c=2,r=1;L3RtcC94\x1b\\".to_vec());
    assert_eq!(img.temp_file_sequence(b"abc"), b"\x1b_Ga=T,f=32,t=t,i=12,s=2,v=1,c=2,r=1;abc\x1b\\".to_vec());
}

#[test]
fn print_assigns_ids_and_areas() {
    let mut r = renderer(8, 16);
    let px = vec![0u8; 64 * 32 * 3];
    let img = r.print(ImageData::RgbRef(&px), 64, 32, &Area::new(0, 0, 10, 5));
    assert_eq!(img.id, 1);
    assert_eq!(img.area, Area::new(1, 1, 8, 2));
    let img = r.print(ImageData::Rgb(px.clone()), 64, 32, &Area::new(0, 0, 10, 5));
    assert_eq!(img.id, 2);
    assert_eq!(r.take_current_images(), Some(vec![1, 2]));
}

#[test]
fn kitty_term_names() {
    assert!(is_kitty_term_name("xterm-kitty"));
    assert!(is_kitty_term_name("kitty"));
    assert!(!is_kitty_term_name("xterm-256color"));
    assert!(!is_kitty_term_name("kitt"));
    assert!(!is_kitty_term_name(""));
}

#[test]
fn next_id_reports_the_counter() {
    let mut r = renderer(8, 16);
    assert_eq!(r.next_id(), 1);
    r.new_id();
    let _ = r.erase_all();
    assert_eq!(r.next_id(), 2);
}

#[test]
fn chunked_transmission_follows_the_medium() {
    let mut r = renderer(8, 16);
    let px = [1u8, 2, 3];
    let img = r.print(ImageData::RgbRef(&px), 1, 1, &Area::new(0, 0, 4, 4));
    let seqs = r.chunked_transmission(&img).unwrap();
    assert_eq!(
        seqs,
        vec![b"\x1b_Ga=T,f=24,t=d,i=1,s=1,v=1,c=1,r=1,m=0;AQID\x1b\\".to_vec()]
    );
    r.transmission_medium = TransmissionMedium::TempFile;
    assert!(r.chunked_transmission(&img).is_none());
}
